use zcash_warp::address::{
    address_receivers, convert_tex_address, decode_address, decode_recipient, filter_address, filter_receivers, name_spendings,
    receivers_text, recipient_contains, single_receiver_address, split_address, AddressError, RecipientAddress, TransparentAddress,
    UnifiedReceivers,
};
use zcash_warp::chain::Network;
use zcash_warp::encoding::{ua_of_orchard, OutputNote};
use zcash_warp::keys::detect_key;
use zcash_warp::types::PoolMask;

const PHRASE: &str = "abandon abandon abandon abandon abandon abandon abandon abandon abandon abandon abandon about";

/// Receivers that decode: those of the first account of a seed phrase.
fn valid_receivers() -> ([u8; 20], [u8; 43], [u8; 43]) {
    let k = detect_key(&Network::Main, PHRASE, 0).unwrap();
    let t = match k.taddr {
        Some(TransparentAddress::PublicKeyHash(h)) => h,
        _ => panic!("no transparent address"),
    };
    (t, k.to_sapling().unwrap().addr, k.to_orchard().unwrap().addr)
}

fn valid_ua() -> RecipientAddress {
    let (t, s, o) = valid_receivers();
    RecipientAddress::Unified(UnifiedReceivers {
        transparent: Some(TransparentAddress::PublicKeyHash(t)),
        sapling: Some(s),
        orchard: Some(o),
    })
}

const ZERO_SAPLING: &str = "zs1qqqqqqqqqqqqqqqqqqqqqqqqqqqqqqqqqqqqqqqqqqqqqqqqqqqqqqqqqqqqqqqqqqqqqpq6d8g";

fn ua(t: bool, s: bool, o: bool) -> RecipientAddress {
    RecipientAddress::Unified(UnifiedReceivers {
        transparent: if t { Some(TransparentAddress::PublicKeyHash([1u8; 20])) } else { None },
        sapling: if s { Some([0u8; 43]) } else { None },
        orchard: if o { Some([2u8; 43]) } else { None },
    })
}

#[test]
fn split_tex_address() {
    let (t, s, o, tex) = address_receivers(&RecipientAddress::Tex([5u8; 20]));
    assert!(matches!(t, Some(TransparentAddress::PublicKeyHash(h)) if h == [5u8; 20]));
    assert!(s.is_none() && o.is_none() && tex);
}

#[test]
fn decode_unified_receivers() {
    let r = receivers_text(Network::Main, &ua(true, true, true));
    assert!(!r.tex);
    assert!(r.transparent.unwrap().starts_with("t1"));
    assert_eq!(r.sapling.as_deref(), Some(ZERO_SAPLING));
    assert_eq!(r.orchard, Some(ua_of_orchard(Network::Main, &[2u8; 43])));
}

#[test]
fn filter_keeps_pools() {
    let a = ua(true, true, true);
    assert_eq!(filter_receivers(Network::Main, &a, 2), ZERO_SAPLING);
    assert!(filter_receivers(Network::Main, &a, 1).starts_with("t1"));
    assert_eq!(filter_receivers(Network::Main, &a, 4), ua_of_orchard(Network::Main, &[2u8; 43]));
    let both = filter_receivers(Network::Main, &a, 6);
    assert!(both.starts_with("u1"));
    assert_ne!(both, filter_receivers(Network::Main, &a, 7));
}

#[test]
fn single_receiver() {
    let ua = valid_ua();
    let text = filter_receivers(Network::Main, &ua, 3);
    let sapling = filter_receivers(Network::Main, &ua, 2);
    assert_eq!(single_receiver_address(Network::Main, &text, PoolMask(2)).unwrap(), Some(sapling.clone()));
    assert_eq!(single_receiver_address(Network::Main, &text, PoolMask(4)).unwrap(), None);
    assert_eq!(single_receiver_address(Network::Main, &text, PoolMask(3)).unwrap_err(), AddressError::NotSinglePool);
    assert_eq!(single_receiver_address(Network::Main, &text, PoolMask(8)).unwrap_err(), AddressError::NoReceiver);
    assert_eq!(single_receiver_address(Network::Main, "u1x", PoolMask(2)).unwrap_err(), AddressError::InvalidAddress);
    assert_eq!(single_receiver_address(Network::Main, &sapling, PoolMask(2)).unwrap(), Some(sapling.clone()));
    assert_eq!(single_receiver_address(Network::Main, &sapling, PoolMask(1)).unwrap(), None);
}

#[test]
fn decoded_addresses_give_back_their_receivers() {
    let ua = valid_ua();
    let (t, s, o) = valid_receivers();
    for mask in 1u8..8 {
        let text = filter_receivers(Network::Main, &ua, mask);
        let (dt, ds, dox, tex) = split_address(Network::Main, &text).unwrap();
        assert!(!tex);
        assert_eq!(dt.is_some(), mask & 1 != 0);
        if let Some(TransparentAddress::PublicKeyHash(h)) = dt {
            assert_eq!(h, t);
        }
        assert_eq!(ds, if mask & 2 != 0 { Some(s) } else { None });
        assert_eq!(dox, if mask & 4 != 0 { Some(o) } else { None });
    }
    let text = filter_receivers(Network::Main, &ua, 7);
    let decoded = decode_address(Network::Main, &text).unwrap();
    let direct = receivers_text(Network::Main, &ua);
    assert_eq!(decoded.transparent, direct.transparent);
    assert_eq!(decoded.sapling, direct.sapling);
    assert_eq!(decoded.orchard, direct.orchard);
}

#[test]
fn filter_decoded_address() {
    let ua = valid_ua();
    let text = filter_receivers(Network::Main, &ua, 7);
    assert_eq!(filter_address(Network::Main, &text, 2).unwrap(), filter_receivers(Network::Main, &ua, 2));
    assert_eq!(filter_address(Network::Main, &text, 5).unwrap(), filter_receivers(Network::Main, &ua, 5));
    let sapling = filter_receivers(Network::Main, &ua, 2);
    assert_eq!(filter_address(Network::Main, &sapling, 1).unwrap_err(), AddressError::NoReceiver);
    assert_eq!(filter_address(Network::Main, "zs1nothing", 7).unwrap_err(), AddressError::InvalidAddress);
}

#[test]
fn addresses_belong_to_their_chain() {
    let text = filter_receivers(Network::Main, &valid_ua(), 6);
    assert!(decode_recipient(Network::Main, &text).is_ok());
    assert_eq!(decode_recipient(Network::Regtest, &text).unwrap_err(), AddressError::InvalidAddress);
    assert_eq!(split_address(Network::Main, "").unwrap_err(), AddressError::InvalidAddress);
}

#[test]
fn shared_receivers() {
    let a = ua(true, true, false);
    let b = RecipientAddress::Sapling([0u8; 43]);
    let c = RecipientAddress::Transparent(TransparentAddress::ScriptHash([1u8; 20]));
    assert!(recipient_contains(&a, &b));
    assert!(recipient_contains(&b, &a));
    assert!(!recipient_contains(&a, &c));
    assert!(recipient_contains(&c, &c));
    assert!(recipient_contains(&a, &RecipientAddress::Tex([1u8; 20])));
}

#[test]
fn tex_round_trip() {
    let pkh = [9u8; 20];
    let t = Some(TransparentAddress::PublicKeyHash(pkh));
    let taddr = filter_receivers(Network::Main, &RecipientAddress::Transparent(t.unwrap()), 1);
    let tex = convert_tex_address(Network::Main, &taddr, true).unwrap();
    assert!(tex.starts_with("tex1"));
    let back = convert_tex_address(Network::Main, &tex, false).unwrap();
    assert_eq!(back, taddr);
    let upper = convert_tex_address(Network::Main, &tex.to_uppercase(), false).unwrap();
    assert_eq!(upper, taddr);
    let decoded = split_address(Network::Main, &tex).unwrap();
    assert!(decoded.3);
}

#[test]
fn tex_errors() {
    assert_eq!(convert_tex_address(Network::Main, "x", true).unwrap_err(), AddressError::InvalidAddress);
    let sh = filter_receivers(Network::Main, &RecipientAddress::Transparent(TransparentAddress::ScriptHash([1u8; 20])), 1);
    assert_eq!(convert_tex_address(Network::Main, &sh, true).unwrap_err(), AddressError::NotPublicKeyHash);
    assert_eq!(convert_tex_address(Network::Main, "not bech32", false).unwrap_err(), AddressError::InvalidAddress);
    assert_eq!(convert_tex_address(Network::Main, ZERO_SAPLING, false).unwrap_err(), AddressError::NotTex);
}

#[test]
fn spendings_named_after_contacts() {
    let (t, s, o) = valid_receivers();
    let alice = RecipientAddress::Unified(UnifiedReceivers {
        transparent: Some(TransparentAddress::PublicKeyHash(t)),
        sapling: Some(s),
        orchard: None,
    });
    let bob = RecipientAddress::Sapling(s);
    let carol = RecipientAddress::Unified(UnifiedReceivers { transparent: None, sapling: None, orchard: Some(o) });
    let contacts = vec![(Some("alice".to_string()), alice), (Some("bob".to_string()), bob), (Some("carol".to_string()), carol)];
    let sapling = filter_receivers(Network::Main, &RecipientAddress::Sapling(s), 2);
    let other = filter_receivers(Network::Main, &RecipientAddress::Transparent(TransparentAddress::PublicKeyHash([8u8; 20])), 1);
    let rows = vec![(10u64, Some(sapling)), (20u64, Some(other.clone())), (30u64, None), (40u64, Some("garbage".to_string()))];
    let sp = name_spendings(Network::Main, &rows, &contacts);
    // alice and bob both share the Sapling receiver: the last one wins
    assert_eq!(sp[0].recipient.as_deref(), Some("bob"));
    assert_eq!(sp[0].amount, 10);
    assert_eq!(sp[1].recipient.as_deref(), Some(other.as_str()));
    assert_eq!(sp[2].recipient, None);
    assert_eq!(sp[3].recipient.as_deref(), Some("garbage"));
}

#[test]
fn outputs_of_single_receiver_addresses() {
    let (t, s, o) = valid_receivers();
    let net = Network::Main;
    let memo = vec![0xF6u8];
    let taddr = receivers_text(net, &RecipientAddress::Transparent(TransparentAddress::PublicKeyHash(t))).transparent.unwrap();
    assert!(matches!(OutputNote::from_address(&net, &taddr, memo.clone()), Ok(OutputNote::Transparent { pkh: true, address }) if address == t));
    let saddr = receivers_text(net, &RecipientAddress::Sapling(s)).sapling.unwrap();
    assert!(matches!(OutputNote::from_address(&net, &saddr, memo.clone()), Ok(OutputNote::Sapling { address, memo: m }) if address == s && m == vec![0xF6u8]));
    let oaddr = ua_of_orchard(net, &o);
    assert!(matches!(OutputNote::from_address(&net, &oaddr, memo.clone()), Ok(OutputNote::Orchard { address, .. }) if address == o));
    let tex = convert_tex_address(net, &taddr, true).unwrap();
    assert!(matches!(OutputNote::from_address(&net, &tex, memo.clone()), Ok(OutputNote::Transparent { pkh: true, address }) if address == t));
    // a unified address with several receivers is no single output
    let full = filter_receivers(net, &valid_ua(), 7);
    assert_eq!(OutputNote::from_address(&net, &full, memo.clone()).unwrap_err(), AddressError::NotSinglePool);
    assert_eq!(OutputNote::from_address(&net, "nonsense", memo).unwrap_err(), AddressError::InvalidAddress);
}

#[test]
fn output_note_address_round_trip() {
    let (t, s, o) = valid_receivers();
    let texts = vec![
        OutputNote::Transparent { pkh: true, address: t }.to_address(&Network::Main),
        OutputNote::Transparent { pkh: false, address: t }.to_address(&Network::Main),
        OutputNote::Sapling { address: s, memo: vec![] }.to_address(&Network::Main),
        OutputNote::Orchard { address: o, memo: vec![] }.to_address(&Network::Main),
    ];
    for a in texts.iter() {
        let n = OutputNote::from_address(&Network::Main, a, vec![0xF6]).unwrap();
        assert_eq!(&n.to_address(&Network::Main), a);
    }
    let multi = filter_receivers(Network::Main, &valid_ua(), 7);
    assert_eq!(OutputNote::from_address(&Network::Main, &multi, vec![]).err(), Some(AddressError::NotSinglePool));
}
