//! Plain records exchanged with the wallet's callers.
use vstd::prelude::*;

verus! {

/// A message carried in a memo.
#[derive(Clone, Debug)]
pub struct UserMemoT {
    pub reply_to: bool,
    pub sender: String,
    pub recipient: String,
    pub subject: String,
    pub body: String,
}

/// One recipient of a payment request.
#[derive(Clone, Debug)]
pub struct RecipientT {
    pub address: Option<String>,
    pub amount: u64,
    pub pools: u8,
    pub memo: Option<UserMemoT>,
    pub memo_bytes: Option<Vec<u8>>,
}

/// A payment request.
#[derive(Clone, Debug)]
pub struct PaymentRequestT {
    pub recipients: Option<Vec<RecipientT>>,
    pub src_pools: u8,
    pub sender_pay_fees: bool,
    pub use_change: bool,
    pub height: u32,
    pub expiration: u32,
}

/// One line of a transaction summary.
#[derive(Clone, Debug)]
pub struct TransactionRecipientT {
    pub address: Option<String>,
    pub amount: u64,
    pub change: bool,
}

/// What a prepared transaction does, for the user to look over before signing.
#[derive(Clone, Debug)]
pub struct TransactionSummaryT {
    pub height: u32,
    pub recipients: Option<Vec<TransactionRecipientT>>,
    pub transparent_ins: u64,
    pub sapling_net: i64,
    pub orchard_net: i64,
    pub fee: u64,
    pub privacy_level: u8,
    pub num_inputs: Option<Vec<u8>>,
    pub num_outputs: Option<Vec<u8>>,
    pub data: Option<Vec<u8>>,
    pub redirect: Option<String>,
}

/// The decoded receivers of an address, each encoded on its own.
#[derive(Clone, Debug)]
pub struct UAReceiversT {
    pub tex: bool,
    pub transparent: Option<String>,
    pub sapling: Option<String>,
    pub orchard: Option<String>,
}

/// Connection settings.
#[derive(Clone, Debug)]
pub struct ConfigT {
    pub db_path: Option<String>,
    pub servers: Option<Vec<String>>,
    pub warp_url: Option<String>,
    pub warp_end_height: u32,
    pub confirmations: u32,
    pub regtest: bool,
}

/// Balance of an account per pool.
#[derive(Clone, Copy, Debug)]
pub struct BalanceT {
    pub transparent: u64,
    pub sapling: u64,
    pub orchard: u64,
}

/// One fountain-coded packet of a payload split for QR codes.
#[derive(Clone, Debug)]
pub struct PacketT {
    pub data: Option<Vec<u8>>,
    pub len: u32,
}

/// A set of packets to merge.
#[derive(Clone, Debug)]
pub struct PacketsT {
    pub packets: Option<Vec<PacketT>>,
}

/// A contact of the address book.
#[derive(Clone, Debug)]
pub struct ContactCardT {
    pub id: u32,
    pub account: u32,
    pub name: Option<String>,
    pub address: Option<String>,
    pub saved: bool,
}

/// What an account can sign with: 0 no key, 1 viewing key, 3 spending key.
#[derive(Clone, Copy, Debug)]
pub struct AccountSigningCapabilitiesT {
    pub seed: bool,
    pub transparent: u8,
    pub sapling: u8,
    pub orchard: u8,
}

/// A note to be marked spent: its pool and its id.
#[derive(Clone, Copy, Debug)]
pub struct IdNoteT {
    pub pool: u8,
    pub id: u32,
}

/// A signed transaction with the notes it spends.
#[derive(Clone, Debug)]
pub struct TransactionBytesT {
    pub notes: Option<Vec<IdNoteT>>,
    pub data: Option<Vec<u8>>,
    pub redirect: Option<String>,
}

/// A transaction seen in the mempool.
#[derive(Clone, Debug)]
pub struct UnconfirmedTxT {
    pub account: u32,
    pub txid: Option<Vec<u8>>,
    pub value: i64,
}

/// A checkpoint of the chain.
#[derive(Clone, Debug)]
pub struct CheckpointT {
    pub height: u32,
    pub hash: Option<Vec<u8>>,
    pub timestamp: u32,
}

/// A message decoded from a shielded output.
#[derive(Clone, Debug)]
pub struct ShieldedMessageT {
    pub id_msg: u32,
    pub account: u32,
    pub id_tx: u32,
    pub txid: Option<Vec<u8>>,
    pub height: u32,
    pub timestamp: u32,
    pub incoming: bool,
    pub contact: Option<String>,
    pub nout: u32,
    pub memo: Option<UserMemoT>,
    pub read: bool,
}


/// The backup of an account: its keys in text form.
#[derive(Clone, Debug)]
pub struct BackupT {
    pub name: Option<String>,
    pub seed: Option<String>,
    pub index: u32,
    pub sk: Option<String>,
    pub fvk: Option<String>,
    pub uvk: Option<String>,
    pub tsk: Option<String>,
    pub txsk: Option<String>,
    pub tvk: Option<String>,
    pub taddr: Option<String>,
    pub birth: u32,
    pub saved: bool,
}

/// A transaction of the history.
#[derive(Clone, Debug)]
pub struct TransactionInfoT {
    pub id: u32,
    pub txid: Option<Vec<u8>>,
    pub height: u32,
    pub confirmations: u32,
    pub timestamp: u32,
    pub amount: i64,
    pub address: Option<String>,
    pub contact: Option<String>,
    pub memo: Option<String>,
}

/// A transparent input of a transaction.
#[derive(Clone, Debug)]
pub struct InputTransparentT {
    pub txid: Option<Vec<u8>>,
    pub vout: u32,
    pub address: Option<String>,
    pub value: u64,
}

/// A transparent output of a transaction.
#[derive(Clone, Debug)]
pub struct OutputTransparentT {
    pub address: Option<String>,
    pub value: u64,
}

/// A shielded spend of a transaction.
#[derive(Clone, Debug)]
pub struct InputShieldedT {
    pub orchard: bool,
    pub nf: Option<Vec<u8>>,
    pub address: Option<String>,
    pub value: u64,
    pub rcm: Option<Vec<u8>>,
    pub rho: Option<Vec<u8>>,
}

/// A shielded output of a transaction.
#[derive(Clone, Debug)]
pub struct OutputShieldedT {
    pub orchard: bool,
    pub incoming: bool,
    pub cmx: Option<Vec<u8>>,
    pub address: Option<String>,
    pub value: u64,
    pub rcm: Option<Vec<u8>>,
    pub rho: Option<Vec<u8>>,
    pub memo: Option<String>,
}

/// Everything about one transaction, pool by pool.
#[derive(Clone, Debug)]
pub struct TransactionInfoExtendedT {
    pub height: u32,
    pub timestamp: u32,
    pub txid: Option<Vec<u8>>,
    pub tins: Option<Vec<InputTransparentT>>,
    pub touts: Option<Vec<OutputTransparentT>>,
    pub sins: Option<Vec<InputShieldedT>>,
    pub souts: Option<Vec<OutputShieldedT>>,
    pub oins: Option<Vec<InputShieldedT>>,
    pub oouts: Option<Vec<OutputShieldedT>>,
}

/// A shielded note of the account.
#[derive(Clone, Copy, Debug)]
pub struct ShieldedNoteT {
    pub id_note: u32,
    pub height: u32,
    pub confirmations: u32,
    pub timestamp: u32,
    pub value: u64,
    pub orchard: bool,
    pub excluded: bool,
}

/// An account in the list of accounts.
#[derive(Clone, Debug)]
pub struct AccountNameT {
    pub coin: u8,
    pub id: u32,
    pub name: Option<String>,
    pub birth: u32,
    pub icon: Option<Vec<u8>>,
    pub balance: u64,
    pub hidden: bool,
}

/// The list of accounts.
#[derive(Clone, Debug)]
pub struct AccountNameListT {
    pub items: Option<Vec<AccountNameT>>,
}

/// A key pair for encrypting backups.
#[derive(Clone, Debug)]
pub struct AGEKeysT {
    pub public_key: Option<String>,
    pub secret_key: Option<String>,
}

/// What was spent to a recipient.
#[derive(Clone, Debug)]
pub struct SpendingT {
    pub recipient: Option<String>,
    pub amount: u64,
}

/// Progress of a synchronization.
#[derive(Clone, Copy, Debug)]
pub struct ProgressT {
    pub trial_decryptions: u32,
    pub downloaded: u64,
    pub height: u32,
    pub timestamp: u32,
}

/// Keys and addresses derived from a seed (ZIP-32).
#[derive(Clone, Debug)]
pub struct ZIP32KeysT {
    pub aindex: u32,
    pub addr_index: u32,
    pub tsk: Option<String>,
    pub taddress: Option<String>,
    pub zsk: Option<String>,
    pub zaddress: Option<String>,
}

/// Version of the database schema.
#[derive(Clone, Copy, Debug)]
pub struct SchemaVersionT {
    pub major: u8,
    pub minor: u8,
}

/// Files of an encrypted database archive.
#[derive(Clone, Debug)]
pub struct ZipDbConfigT {
    pub directory: Option<String>,
    pub file_list: Option<Vec<String>>,
    pub target_path: Option<String>,
    pub public_key: Option<String>,
}

/// A transparent address of the account and its balance.
#[derive(Clone, Debug)]
pub struct TransparentAddressT {
    pub account: u32,
    pub external: u32,
    pub addr_index: u32,
    pub address: Option<String>,
    pub amount: u64,
}

/// A swap made through an exchange.
#[derive(Clone, Debug)]
pub struct SwapT {
    pub provider: Option<String>,
    pub provider_id: Option<String>,
    pub timestamp: u32,
    pub from_currency: Option<String>,
    pub from_amount: Option<String>,
    pub from_address: Option<String>,
    pub from_image: Option<String>,
    pub to_currency: Option<String>,
    pub to_amount: Option<String>,
    pub to_address: Option<String>,
    pub to_image: Option<String>,
}

/// The list of swaps.
#[derive(Clone, Debug)]
pub struct SwapListT {
    pub items: Option<Vec<SwapT>>,
}

/// What an account can spend.
#[derive(Clone, Copy, Debug)]
pub struct SpendableT {
    pub total: u64,
    pub unconfirmed: u64,
    pub immature: u64,
}

/// A contact card.
#[derive(Clone, Debug)]
pub struct ContactCardTT {
    pub id: u32,
    pub account: u32,
    pub name: Option<String>,
    pub address: Option<String>,
    pub saved: bool,
}

/// A message read from a memo, for display.
#[derive(Clone, Debug)]
pub struct ZMessage {
    pub id_tx: u32,
    pub nout: u32,
    pub sender: Option<String>,
    pub recipient: String,
    pub subject: String,
    pub body: String,
    pub timestamp: u32,
    pub height: u32,
    pub incoming: bool,
}

/// The settings of a configuration.
pub struct ConfigView {
    pub db_path: Option<Seq<char>>,
    pub servers: Option<Seq<Seq<char>>>,
    pub warp_url: Option<Seq<char>>,
    pub warp_end_height: u32,
    pub confirmations: u32,
    pub regtest: bool,
}

/// The view of an optional string.
pub open spec fn opt_str_view(s: Option<String>) -> Option<Seq<char>> {
    match s {
        Some(t) => Some(t@),
        None => None,
    }
}

impl View for ConfigT {
    type V = ConfigView;

    open spec fn view(&self) -> ConfigView {
        ConfigView {
            db_path: opt_str_view(self.db_path),
            servers: match self.servers {
                Some(v) => Some(v@.map_values(|s: String| s@)),
                None => None,
            },
            warp_url: opt_str_view(self.warp_url),
            warp_end_height: self.warp_end_height,
            confirmations: self.confirmations,
            regtest: self.regtest,
        }
    }
}

/// The configuration with no setting made.
pub open spec fn config_unset() -> ConfigView {
    ConfigView { db_path: None, servers: None, warp_url: None, warp_end_height: 0, confirmations: 0, regtest: false }
}

/// The settings of `a` overridden by those that `b` makes: servers and
/// the warp URL where `b` has them, the height and the confirmations where
/// they are not zero, regtest where it is on. The database path stays.
pub open spec fn merge_spec(a: ConfigView, b: ConfigView) -> ConfigView {
    ConfigView {
        db_path: a.db_path,
        servers: if b.servers is Some { b.servers } else { a.servers },
        warp_url: if b.warp_url is Some { b.warp_url } else { a.warp_url },
        warp_end_height: if b.warp_end_height > 0 { b.warp_end_height } else { a.warp_end_height },
        confirmations: if b.confirmations > 0 { b.confirmations } else { a.confirmations },
        regtest: if b.regtest { b.regtest } else { a.regtest },
    }
}

/// A copy of a list of strings.
fn copy_strings(v: &Vec<String>) -> (r: Vec<String>)
    ensures
        r@ == v@,
{
    let mut r: Vec<String> = Vec::new();
    let mut i: usize = 0;
    while i < v.len()
        invariant
            i <= v@.len(),
            r@ == v@.take(i as int),
        decreases v@.len() - i,
    {
        r.push(v[i].clone());
        proof {
            assert(v@.take(i + 1) =~= v@.take(i as int).push(v@[i as int]));
        }
        i = i + 1;
    }
    proof {
        assert(v@.take(v@.len() as int) =~= v@);
    }
    r
}

impl Default for ConfigT {
    fn default() -> (r: Self)
        ensures
            r@ == config_unset(),
    {
        ConfigT { db_path: None, servers: None, warp_url: None, warp_end_height: 0, confirmations: 0, regtest: false }
    }
}

impl ConfigT {
    /// Takes over the settings that `other` makes.
    pub fn merge(&mut self, other: &ConfigT)
        ensures
            final(self)@ == merge_spec(old(self)@, other@),
    {
        if let Some(servers) = &other.servers {
            self.servers = Some(copy_strings(servers));
        }
        if let Some(url) = &other.warp_url {
            self.warp_url = Some(url.clone());
        }
        if other.confirmations > 0 {
            self.confirmations = other.confirmations;
        }
        if other.warp_end_height > 0 {
            self.warp_end_height = other.warp_end_height;
        }
        if other.regtest {
            self.regtest = other.regtest;
        }
    }
}

/// Merging a configuration that makes no setting changes nothing.
pub proof fn lemma_merge_unset(a: ConfigView)
    ensures
        merge_spec(a, config_unset()) == a,
{
}

/// Merging into a configuration that makes no setting takes over every
/// setting but the database path.
pub proof fn lemma_merge_into_unset(b: ConfigView)
    ensures
        merge_spec(config_unset(), b) == (ConfigView { db_path: None, ..b }),
{
}

/// Merging the same configuration twice is merging it once.
pub proof fn lemma_merge_idempotent(a: ConfigView, b: ConfigView)
    ensures
        merge_spec(merge_spec(a, b), b) == merge_spec(a, b),
{
}

/// Merging `b` then `c` is merging `b` merged with `c`.
pub proof fn lemma_merge_associative(a: ConfigView, b: ConfigView, c: ConfigView)
    ensures
        merge_spec(merge_spec(a, b), c) == merge_spec(a, merge_spec(b, c)),
{
}

} // verus!
