use zcash_warp::account::{AccountInfo, OrchardAccountInfo, SaplingAccountInfo, TransparentAccountInfo};
use zcash_warp::address::{filter_receivers, RecipientAddress, TransparentAddress};
use zcash_warp::address::{encode_transparent, AddressError};
use zcash_warp::chain::Network;
use zcash_warp::types::PoolMask;
use zcash_warp::encoding::export_sk_bip38;
use zcash_warp::keys::{
    account_info_from_row, AccountRow, decode_extended_private_key, get_diversified_address, generate_random_mnemonic_phrase, generate_random_mnemonic_phrase_os_rng, decode_extended_public_key, derive_zip32_keys, detect_key, find_address_index, import_sk_bip38, to_extended_full_viewing_key, is_valid_key, parse_seed_phrase, sk_to_address, AccountKeys, KeyError,
};

const PHRASE: &str = "abandon abandon abandon abandon abandon abandon abandon abandon abandon abandon abandon about";

fn hex(b: &[u8]) -> String {
    b.iter().map(|x| format!("{:02x}", x)).collect()
}

#[test]
fn seed_of_mnemonic_without_password() {
    let seed = parse_seed_phrase(PHRASE).unwrap();
    assert_eq!(
        hex(&seed),
        "5eb00bbddcf069084889a8ab9155568165f5c453ccb85e70811aaed6f6da5fc19a5ac40b389cd370d086206dec8aa6c43daea6690f20ad3d8d48b2d2ce9e38e4"
    );
}

#[test]
fn last_word_of_a_longer_phrase_is_the_password() {
    let phrase = format!("{} TREZOR", PHRASE);
    let seed = parse_seed_phrase(&phrase).unwrap();
    assert_eq!(
        hex(&seed),
        "c55257c360c07c72029aebc1b53c05ed0362ada38ead3e3e9efa3708e53495531f09a6987599d18264c1e1c92f2cf141630c7a3c4ab7c81b2f001698e7463b04"
    );
    // extra whitespace between the words does not matter
    let spaced = format!("  {}   TREZOR ", PHRASE.replace(' ', "\t "));
    assert_eq!(parse_seed_phrase(&spaced).unwrap(), seed);
}

#[test]
fn invalid_phrases_have_no_seed() {
    assert!(parse_seed_phrase("abandon abandon abandon").is_none());
    assert!(parse_seed_phrase(&PHRASE.replace("about", "abandon")).is_none());
    assert!(parse_seed_phrase("").is_none());
}

#[test]
fn seed_phrase_gives_all_pools() {
    let k = detect_key(&Network::Main, PHRASE, 0).unwrap();
    assert_eq!(k.seed.as_deref(), Some(PHRASE));
    assert_eq!(k.aindex, 0);
    let di = k.dindex.unwrap();
    let svk = k.svk.clone().unwrap();
    assert_eq!(find_address_index(&svk, 0), Some(di));
    assert!(k.txsk.is_some() && k.tsk.is_some() && k.tvk.is_some() && k.ssk.is_some() && k.osk.is_some() && k.ovk.is_some());
    let tvk = k.tvk.clone().unwrap();
    let derived = TransparentAccountInfo::derive_address(&tvk, di).unwrap();
    assert!(matches!((derived, k.taddr), (TransparentAddress::PublicKeyHash(a), Some(TransparentAddress::PublicKeyHash(b))) if a == b));
    let tsk = TransparentAccountInfo::derive_sk(k.txsk.as_ref().unwrap(), 0, di).unwrap();
    assert_eq!(Some(tsk), k.tsk);
    // the transparent secret key at the index pays to the address at the index
    assert!(matches!((sk_to_address(&tsk), k.taddr), (Some(TransparentAddress::PublicKeyHash(a)), Some(TransparentAddress::PublicKeyHash(b))) if a == b));
    let t = k.to_transparent().unwrap();
    assert_eq!(t.index, di);
    let s = k.to_sapling().unwrap();
    let o = k.to_orchard().unwrap();
    assert_eq!(s.vk, svk);
    assert_eq!(o.vk, k.ovk.clone().unwrap());
    assert_eq!(SaplingAccountInfo::from_vk(&svk, 0).unwrap().addr, s.addr);
    assert_eq!(OrchardAccountInfo::from_vk(&o.vk, di).unwrap().addr, o.addr);
}

#[test]
fn accounts_differ_by_index() {
    let k0 = detect_key(&Network::Main, PHRASE, 0).unwrap();
    let k1 = detect_key(&Network::Main, PHRASE, 1).unwrap();
    assert_eq!(k1.aindex, 1);
    assert_ne!(k0.svk, k1.svk);
    assert_ne!(k0.ovk, k1.ovk);
    assert_ne!(k0.tvk, k1.tvk);
    let regtest = detect_key(&Network::Regtest, PHRASE, 0).unwrap();
    assert_ne!(k0.svk, regtest.svk);
}

#[test]
fn exported_secret_key_is_read_back() {
    let k = detect_key(&Network::Main, PHRASE, 0).unwrap();
    let sk = k.tsk.unwrap();
    let text = export_sk_bip38(&sk);
    assert_eq!(import_sk_bip38(&text), Some(sk));
    let imported = detect_key(&Network::Main, &text, 0).unwrap();
    assert_eq!(imported.tsk, Some(sk));
    assert!(imported.dindex.is_none() && imported.svk.is_none() && imported.tvk.is_none());
    assert!(matches!((imported.taddr, k.taddr), (Some(TransparentAddress::PublicKeyHash(a)), Some(TransparentAddress::PublicKeyHash(b))) if a == b));
    // zero is no secp256k1 key
    assert_eq!(import_sk_bip38(&export_sk_bip38(&[0u8; 32])), None);
    assert_eq!(import_sk_bip38("not base58"), None);
}

#[test]
fn transparent_address_is_a_watch_only_key() {
    let text = filter_receivers(Network::Main, &RecipientAddress::Transparent(TransparentAddress::ScriptHash([4u8; 20])), 1);
    let k = detect_key(&Network::Main, &text, 3).unwrap();
    assert!(matches!(k.taddr, Some(TransparentAddress::ScriptHash(h)) if h == [4u8; 20]));
    assert_eq!(k.aindex, 0);
    assert!(k.seed.is_none() && k.dindex.is_none() && k.tsk.is_none());
    assert!(k.to_transparent().is_some() && k.to_sapling().is_none() && k.to_orchard().is_none());
}

#[test]
fn unknown_keys_are_refused() {
    assert_eq!(detect_key(&Network::Main, "hello", 0).unwrap_err(), KeyError::InvalidKey);
    assert!(!is_valid_key(&Network::Main, "zxviews1nothing"));
    assert!(is_valid_key(&Network::Main, PHRASE));
}

fn seed_account(k: &AccountKeys) -> AccountInfo {
    AccountInfo {
        account: 1,
        position: 0,
        name: "main".to_string(),
        seed: k.seed.clone(),
        aindex: k.aindex,
        dindex: k.dindex.unwrap(),
        birth: 0,
        saved: false,
        transparent: k.to_transparent().map(|t| TransparentAccountInfo { change_index: Some(0), ..t }),
        sapling: k.to_sapling(),
        orchard: k.to_orchard(),
    }
}

#[test]
fn account_keys_round_trip() {
    let k = detect_key(&Network::Main, PHRASE, 0).unwrap();
    let ai = seed_account(&k);
    let back = ai.keys();
    assert_eq!(back.svk, k.svk);
    assert_eq!(back.ovk, k.ovk);
    assert_eq!(back.tvk, k.tvk);
    assert_eq!(back.tsk, k.tsk);
    assert_eq!(ai.to_secret_keys().transparent, k.tsk);
    assert_eq!(ai.to_view_keys().sapling, k.svk);
}

#[test]
fn moving_to_another_address_index() {
    let k = detect_key(&Network::Main, PHRASE, 0).unwrap();
    let ai = seed_account(&k);
    let next = ai.next_addr_index(true).unwrap();
    assert!(next > ai.dindex);
    assert_eq!(ai.next_addr_index(false), Some(ai.dindex + 1));
    let moved = ai.clone_with_addr_index(next).unwrap();
    assert_eq!(moved.dindex, next);
    assert_ne!(moved.sapling.as_ref().unwrap().addr, ai.sapling.as_ref().unwrap().addr);
    assert_ne!(moved.orchard.as_ref().unwrap().addr, ai.orchard.as_ref().unwrap().addr);
    let back = moved.clone_with_addr_index(ai.dindex).unwrap();
    assert_eq!(back.sapling.as_ref().unwrap().addr, ai.sapling.as_ref().unwrap().addr);
    assert_eq!(back.to_address(&Network::Main, zcash_warp::types::PoolMask(7)), ai.to_address(&Network::Main, zcash_warp::types::PoolMask(7)));
    // without the account public key no other transparent address can be made
    let mut watch = ai.clone();
    watch.transparent = watch.transparent.map(|t| TransparentAccountInfo { vk: None, ..t });
    assert_eq!(watch.clone_with_addr_index(next).unwrap_err(), KeyError::NoExtendedPublicKey);
}

#[test]
fn change_addresses() {
    let k = detect_key(&Network::Main, PHRASE, 0).unwrap();
    let ai = seed_account(&k);
    let receiving = ai.to_change_address(&Network::Main, 0, false).unwrap();
    let change = ai.to_change_address(&Network::Main, 0, true).unwrap();
    assert!(receiving.starts_with("t1") && change.starts_with("t1"));
    assert_ne!(receiving, change);
    assert_eq!(ai.to_change_address(&Network::Main, 1, true), ai.to_address(&Network::Main, zcash_warp::types::PoolMask(2)));
    assert_eq!(ai.to_change_address(&Network::Main, 2, false), ai.to_address(&Network::Main, zcash_warp::types::PoolMask(4)));
}

#[test]
fn backup_keys_are_read_back() {
    let k = detect_key(&Network::Main, PHRASE, 0).unwrap();
    let ai = seed_account(&k);
    let b = ai.to_backup(&Network::Main);
    assert_eq!(b.name.as_deref(), Some("main"));
    assert_eq!(b.seed.as_deref(), Some(PHRASE));
    assert_eq!(b.index, 0);
    let sk = b.sk.clone().unwrap();
    assert!(sk.starts_with("secret-extended-key-main1"));
    assert_eq!(detect_key(&Network::Main, &sk, 0).unwrap().ssk, k.ssk);
    let fvk = b.fvk.clone().unwrap();
    assert!(fvk.starts_with("zxviews1"));
    assert_eq!(detect_key(&Network::Main, &fvk, 0).unwrap().svk, k.svk);
    let uvk = b.uvk.clone().unwrap();
    assert!(uvk.starts_with("uview1"));
    let from_uvk = detect_key(&Network::Main, &uvk, 0).unwrap();
    assert_eq!(from_uvk.svk, k.svk);
    assert_eq!(from_uvk.ovk, k.ovk);
    assert_eq!(from_uvk.tvk, k.tvk);
    let tsk = b.tsk.clone().unwrap();
    assert_eq!(import_sk_bip38(&tsk), k.tsk);
    assert!(b.txsk.clone().unwrap().starts_with("xprv"));
    assert!(b.tvk.clone().unwrap().starts_with("xpub"));
    let txsk = k.txsk.clone().unwrap();
    let xprv: bip32::ExtendedKey = b.txsk.clone().unwrap().parse().unwrap();
    assert_eq!(xprv.attrs.depth, txsk[0]);
    assert_eq!(&xprv.attrs.chain_code[..], &txsk[9..41]);
    assert_eq!(&xprv.key_bytes[..], &txsk[41..74]);
    let tvk = k.tvk.clone().unwrap();
    let xpub: bip32::ExtendedKey = b.tvk.clone().unwrap().parse().unwrap();
    assert_eq!(xpub.attrs.depth, txsk[0]);
    assert_eq!(&xpub.attrs.chain_code[..], &tvk[..32]);
    assert_eq!(&xpub.key_bytes[..], &tvk[32..]);
    assert!(b.taddr.clone().unwrap().starts_with("t1"));
}

#[test]
fn backup_of_a_view_only_account() {
    let k = detect_key(&Network::Main, PHRASE, 0).unwrap();
    let mut ai = seed_account(&k);
    ai.seed = None;
    ai.sapling = ai.sapling.map(|s| SaplingAccountInfo { sk: None, ..s });
    ai.transparent = ai.transparent.map(|t| TransparentAccountInfo { xsk: None, sk: None, ..t });
    ai.orchard = None;
    let b = ai.to_backup(&Network::Main);
    assert!(b.seed.is_none() && b.sk.is_none() && b.tsk.is_none() && b.txsk.is_none());
    assert!(b.fvk.is_some() && b.uvk.is_some() && b.tvk.is_some());
    ai.sapling = None;
    // without a shielded key there is no unified viewing key
    assert!(ai.to_backup(&Network::Main).uvk.is_none());
}

#[test]
fn extended_viewing_key_bytes() {
    let vk = vec![7u8; 128];
    let b = to_extended_full_viewing_key(&vk);
    assert_eq!(b.len(), 169);
    assert!(b[..41].iter().all(|x| *x == 0));
    assert_eq!(&b[41..], &vk[..]);
}

#[test]
fn zip32_keys_of_a_seed() {
    let k = detect_key(&Network::Main, PHRASE, 0).unwrap();
    let z = derive_zip32_keys(&Network::Main, PHRASE, 0, 0, true).unwrap();
    assert_eq!((z.aindex, z.addr_index), (0, 0));
    let tsk = TransparentAccountInfo::derive_sk(k.txsk.as_ref().unwrap(), 0, 0).unwrap();
    assert_eq!(z.tsk, Some(export_sk_bip38(&tsk)));
    assert!(z.taddress.clone().unwrap().starts_with("t1"));
    assert_eq!(detect_key(&Network::Main, &z.zsk.clone().unwrap(), 0).unwrap().ssk, k.ssk);
    // the default Sapling address is the one at the first valid index
    let di = k.dindex.unwrap();
    let at_di = derive_zip32_keys(&Network::Main, PHRASE, 0, di, false).unwrap();
    assert_eq!(z.zaddress, at_di.zaddress);
    assert!(z.zaddress.unwrap().starts_with("zs1"));
    assert_eq!(derive_zip32_keys(&Network::Main, "not a phrase", 0, 0, true).unwrap_err(), KeyError::InvalidKey);
}

#[test]
fn extended_keys_in_bech32() {
    let k = detect_key(&Network::Main, PHRASE, 0).unwrap();
    let txsk = k.txsk.clone().unwrap();
    let tvk = k.tvk.clone().unwrap();
    let prv = bech32::encode::<bech32::Bech32>(bech32::Hrp::parse("txprv").unwrap(), &txsk).unwrap();
    let public = bech32::encode::<bech32::Bech32>(bech32::Hrp::parse("txpub").unwrap(), &tvk).unwrap();
    assert_eq!(decode_extended_private_key(&prv), Ok(txsk.clone()));
    assert_eq!(decode_extended_public_key(&public), Ok(tvk.clone()));
    // the prefixes are not interchangeable
    assert_eq!(decode_extended_private_key(&public), Err(KeyError::InvalidKey));
    assert_eq!(decode_extended_public_key(&prv), Err(KeyError::InvalidKey));
    let short = bech32::encode::<bech32::Bech32>(bech32::Hrp::parse("txpub").unwrap(), &tvk[..64]).unwrap();
    assert_eq!(decode_extended_public_key(&short), Err(KeyError::InvalidKey));
    assert_eq!(decode_extended_private_key("txprv1qqqq"), Err(KeyError::InvalidKey));
}

#[test]
fn transparent_keys_at_another_index() {
    let k = detect_key(&Network::Main, PHRASE, 0).unwrap();
    let t = k.to_transparent().unwrap();
    let txsk = k.txsk.clone().unwrap();
    let tvk = k.tvk.clone().unwrap();
    let moved = t.new_address(0, 5).unwrap();
    assert_eq!(moved.index, 5);
    assert_eq!(moved.sk, TransparentAccountInfo::derive_sk(&txsk, 0, 5));
    let expected = TransparentAccountInfo::derive_address(&tvk, 5).unwrap();
    assert!(matches!((moved.addr, expected), (TransparentAddress::PublicKeyHash(a), TransparentAddress::PublicKeyHash(b)) if a == b));
    let change = t.new_address(1, 5).unwrap();
    assert_eq!(change.sk, TransparentAccountInfo::derive_sk(&txsk, 1, 5));
    // the address is still the receiving one
    assert!(matches!((change.addr, expected), (TransparentAddress::PublicKeyHash(a), TransparentAddress::PublicKeyHash(b)) if a == b));
    let no_vk = TransparentAccountInfo { vk: None, ..t };
    assert_eq!(no_vk.new_address(0, 5).unwrap_err(), KeyError::NoExtendedPublicKey);
}

#[test]
fn phrase_of_zero_entropy() {
    let p = generate_random_mnemonic_phrase(&[0u8; 32]);
    let expected = format!("{}art", "abandon ".repeat(23));
    assert_eq!(p, expected);
    assert!(parse_seed_phrase(&p).is_some());
}

#[test]
fn random_phrases_are_valid_seeds() {
    let a = generate_random_mnemonic_phrase_os_rng();
    let b = generate_random_mnemonic_phrase_os_rng();
    assert_eq!(a.split_whitespace().count(), 24);
    assert!(parse_seed_phrase(&a).is_some());
    assert!(is_valid_key(&Network::Main, &a));
    assert_ne!(a, b);
}

#[test]
fn diversified_addresses() {
    let k = detect_key(&Network::Main, PHRASE, 0).unwrap();
    let ai = seed_account(&k);
    let net = Network::Main;
    // from index 0 on, the first index with a Sapling receiver is the default one
    assert_eq!(get_diversified_address(&net, &ai, 0, PoolMask(7)).unwrap(), ai.to_address(&net, PoolMask(7)).unwrap());
    let t5 = TransparentAccountInfo::derive_address(k.tvk.as_ref().unwrap(), 5).unwrap();
    assert_eq!(get_diversified_address(&net, &ai, 5, PoolMask(1)).unwrap(), encode_transparent(net, &t5));
    // a Sapling receiver alone still makes a unified address
    assert!(get_diversified_address(&net, &ai, 0, PoolMask(2)).unwrap().starts_with("u1"));
    assert_eq!(get_diversified_address(&net, &ai, 0, PoolMask(0)).unwrap_err(), AddressError::NoReceiver);
    let mut watch = ai.clone();
    watch.transparent = watch.transparent.map(|t| TransparentAccountInfo { vk: None, ..t });
    assert_eq!(get_diversified_address(&net, &watch, 0, PoolMask(7)).unwrap_err(), AddressError::NoReceiver);
    assert!(get_diversified_address(&net, &watch, 0, PoolMask(6)).is_ok());
}

#[test]
fn stored_account_is_read_back() {
    let k = detect_key(&Network::Main, PHRASE, 0).unwrap();
    let ai = seed_account(&k);
    let b = ai.to_backup(&Network::Main);
    let t = ai.transparent.clone().unwrap();
    let si = ai.sapling.clone().unwrap();
    let oi = ai.orchard.clone().unwrap();
    let row = AccountRow {
        account: 1,
        position: 0,
        name: "main".to_string(),
        seed: Some(PHRASE.to_string()),
        aindex: 0,
        dindex: ai.dindex,
        birth: 0,
        saved: None,
        taddr: b.taddr.clone(),
        tidx: t.index,
        tsk: b.tsk.clone(),
        txsk: t.xsk.clone(),
        tvk: t.vk.clone(),
        tchange: t.change_index,
        saddr: Some(filter_receivers(Network::Main, &RecipientAddress::Sapling(si.addr), 2)),
        ssk: b.sk.clone(),
        svk: b.fvk.clone(),
        osk: oi.sk.clone(),
        ovk: Some(oi.vk.clone()),
    };
    let back = account_info_from_row(&Network::Main, &row).unwrap();
    assert_eq!(back.keys().svk, k.svk);
    assert_eq!(back.keys().ssk, k.ssk);
    assert_eq!(back.keys().tsk, k.tsk);
    assert_eq!(back.keys().ovk, k.ovk);
    assert_eq!(back.sapling.unwrap().addr, si.addr);
    assert_eq!(back.orchard.unwrap().addr, oi.addr);
    assert!(!back.saved);
    let mut bad = row.clone();
    bad.svk = Some("zxviews1nothing".to_string());
    assert_eq!(account_info_from_row(&Network::Main, &bad).unwrap_err(), KeyError::InvalidKey);
    let mut bad = row.clone();
    bad.ovk = Some(vec![0xffu8; 96]);
    assert_eq!(account_info_from_row(&Network::Main, &bad).unwrap_err(), KeyError::InvalidKey);
    let mut bare = row;
    bare.taddr = None;
    bare.saddr = None;
    bare.ovk = None;
    let back = account_info_from_row(&Network::Main, &bare).unwrap();
    assert!(back.transparent.is_none() && back.sapling.is_none() && back.orchard.is_none());
}
