//! The filter evaluator: a subscriber's declared interest, compiled once at
//! subscription time and evaluated once per (event, live subscriber) pair.
//! A request names filter groups; evaluation returns the names of the groups
//! that match an event, and an empty result means "do not deliver".

use vstd::prelude::*;

use crate::events::{clone_bytes, Message, Pubkey, PUBKEY_LEN};

verus! {

/// Server-configured limits on filter complexity.
#[derive(Debug, Clone, Copy, PartialEq, Eq, Structural)]
pub struct ConfigFilters {
    /// Most filter groups one request may name.
    pub max_groups: usize,
    /// Most addresses one account or owner list may hold.
    pub max_addresses: usize,
}

/// Sub-criteria of one requested filter group, with addresses still raw.
#[derive(Debug)]
pub enum RequestCriteria {
    /// Match every slot update.
    Slots,
    /// Match account updates; an empty list is a wildcard, otherwise the
    /// account (resp. owner) address must be listed.
    Accounts { accounts: Vec<Vec<u8>>, owners: Vec<Vec<u8>> },
    /// Match transaction updates, optionally only (non-)vote transactions.
    Transactions { vote: Option<bool> },
    /// Match every block update.
    Blocks,
}

/// One named filter group of a subscription request.
#[derive(Debug)]
pub struct RequestGroup {
    pub name: String,
    pub criteria: RequestCriteria,
}

/// A subscription request: the subscriber's named filter groups.
#[derive(Debug)]
pub struct SubscribeRequest {
    pub groups: Vec<RequestGroup>,
}

/// Why a request's filter failed to compile.
#[derive(Debug, Clone, Copy, PartialEq, Eq, Structural)]
pub enum FilterError {
    /// More groups than the configured limit.
    TooManyGroups,
    /// An address list longer than the configured limit.
    TooManyAddresses,
    /// Two groups share a name.
    DuplicateName,
    /// An address that is not a well-formed public key.
    InvalidPubkey,
}

/// Compiled sub-criteria of one filter group.
#[derive(Debug)]
pub enum FilterCriteria {
    Slots,
    Accounts { accounts: Vec<Pubkey>, owners: Vec<Pubkey> },
    Transactions { vote: Option<bool> },
    Blocks,
}

/// One compiled, named filter group.
#[derive(Debug)]
pub struct FilterGroup {
    pub name: String,
    pub criteria: FilterCriteria,
}

/// A subscriber's compiled filter: the opaque capability the coordinator
/// evaluates against each event.
#[derive(Debug)]
pub struct Filter {
    groups: Vec<FilterGroup>,
}

/// The address `p` occurs in `s` (byte-for-byte).
pub open spec fn raw_key_in(s: Seq<Vec<u8>>, p: Seq<u8>) -> bool {
    exists|j: int| 0 <= j < s.len() && s[j]@ == p
}

/// The compiled address `p` occurs in `s` (byte-for-byte).
pub open spec fn key_in(s: Seq<Pubkey>, p: Seq<u8>) -> bool {
    exists|j: int| 0 <= j < s.len() && s[j].bytes@ == p
}

/// Every raw address in `s` is a well-formed public key.
pub open spec fn keys_well_formed(s: Seq<Vec<u8>>) -> bool {
    forall|j: int| 0 <= j < s.len() ==> (#[trigger] s[j])@.len() == PUBKEY_LEN
}

/// One requested group obeys the configured limits and parses.
pub open spec fn group_ok(g: RequestGroup, limits: ConfigFilters) -> bool {
    match g.criteria {
        RequestCriteria::Slots => true,
        RequestCriteria::Accounts { accounts, owners } => {
            &&& accounts@.len() <= limits.max_addresses
            &&& owners@.len() <= limits.max_addresses
            &&& keys_well_formed(accounts@)
            &&& keys_well_formed(owners@)
        },
        RequestCriteria::Transactions { .. } => true,
        RequestCriteria::Blocks => true,
    }
}

/// No two groups of the request share a name.
pub open spec fn names_unique(groups: Seq<RequestGroup>) -> bool {
    forall|j: int, k: int|
        0 <= j < k < groups.len() ==> (#[trigger] groups[j]).name@ != (#[trigger] groups[k]).name@
}

/// The whole request compiles under the configured limits.
pub open spec fn request_ok(req: SubscribeRequest, limits: ConfigFilters) -> bool {
    &&& req.groups@.len() <= limits.max_groups
    &&& names_unique(req.groups@)
    &&& forall|j: int| 0 <= j < req.groups@.len() ==> group_ok(#[trigger] req.groups@[j], limits)
}

/// The compiled group `f` is the faithful compilation of the requested
/// group `g`: same name, same criteria, addresses parsed byte-for-byte.
pub open spec fn group_compiles_to(g: RequestGroup, f: FilterGroup) -> bool {
    &&& f.name@ == g.name@
    &&& match g.criteria {
        RequestCriteria::Slots => f.criteria is Slots,
        RequestCriteria::Accounts { accounts, owners } => match f.criteria {
            FilterCriteria::Accounts { accounts: ca, owners: co } => {
                &&& ca@.len() == accounts@.len()
                &&& co@.len() == owners@.len()
                &&& forall|j: int| 0 <= j < accounts@.len() ==> (#[trigger] ca@[j]).bytes@ == accounts@[j]@
                &&& forall|j: int| 0 <= j < owners@.len() ==> (#[trigger] co@[j]).bytes@ == owners@[j]@
            },
            _ => false,
        },
        RequestCriteria::Transactions { vote } => match f.criteria {
            FilterCriteria::Transactions { vote: cv } => cv == vote,
            _ => false,
        },
        RequestCriteria::Blocks => f.criteria is Blocks,
    }
}

/// The compiled filter `f` is the faithful compilation of the whole request:
/// one compiled group per requested group, in order.
pub open spec fn filter_compiles_to(req: SubscribeRequest, f: Filter) -> bool {
    &&& f.spec_groups().len() == req.groups@.len()
    &&& forall|j: int|
        0 <= j < req.groups@.len() ==> group_compiles_to(req.groups@[j], #[trigger] f.spec_groups()[j])
}

/// The compiled group `g` matches the event `m`.
pub open spec fn group_matches(g: FilterGroup, m: Message) -> bool {
    match g.criteria {
        FilterCriteria::Slots => m is Slot,
        FilterCriteria::Accounts { accounts, owners } => match m {
            Message::Account(a) => {
                &&& (accounts@.len() == 0 || key_in(accounts@, a.account.pubkey.bytes@))
                &&& (owners@.len() == 0 || key_in(owners@, a.account.owner.bytes@))
            },
            _ => false,
        },
        FilterCriteria::Transactions { vote } => match m {
            Message::Transaction(t) => match vote {
                Some(v) => v == t.transaction.is_vote,
                None => true,
            },
            _ => false,
        },
        FilterCriteria::Blocks => m is Block,
    }
}

/// The names of the groups that match `m`, in group order.
pub open spec fn matched_names(groups: Seq<FilterGroup>, m: Message) -> Seq<Seq<char>>
    decreases groups.len(),
{
    if groups.len() == 0 {
        Seq::empty()
    } else {
        matched_names(groups.drop_last(), m) + if group_matches(groups.last(), m) {
            seq![groups.last().name@]
        } else {
            Seq::empty()
        }
    }
}

impl Filter {
    /// The compiled groups, for specification purposes.
    pub closed spec fn spec_groups(self) -> Seq<FilterGroup> {
        self.groups@
    }

    /// The names this filter reports for the event `m`.
    pub open spec fn spec_matched_names(self, m: Message) -> Seq<Seq<char>> {
        matched_names(self.spec_groups(), m)
    }

    /// Compiles a subscription request under the configured limits. Succeeds
    /// exactly on requests within the limits whose addresses parse and whose
    /// group names are distinct; each failure names its cause.
    pub fn new(request: &SubscribeRequest, limits: &ConfigFilters) -> (r: Result<Filter, FilterError>)
        ensures
            r is Ok <==> request_ok(*request, *limits),
            (match r {
                Ok(f) => filter_compiles_to(*request, f),
                Err(FilterError::TooManyGroups) => request.groups@.len() > limits.max_groups,
                Err(FilterError::TooManyAddresses) => exists|j: int|
                    0 <= j < request.groups@.len() && !group_ok(#[trigger] request.groups@[j], *limits),
                Err(FilterError::DuplicateName) => !names_unique(request.groups@),
                Err(FilterError::InvalidPubkey) => exists|j: int|
                    0 <= j < request.groups@.len() && !group_ok(#[trigger] request.groups@[j], *limits),
            }),
    {
        if request.groups.len() > limits.max_groups {
            return Err(FilterError::TooManyGroups);
        }
        let mut groups: Vec<FilterGroup> = Vec::new();
        let mut i: usize = 0;
        while i < request.groups.len()
            invariant
                i <= request.groups@.len(),
                groups@.len() == i as int,
                forall|j: int| 0 <= j < i as int
                    ==> group_compiles_to(request.groups@[j], #[trigger] groups@[j]),
                forall|j: int| 0 <= j < i as int
                    ==> group_ok(#[trigger] request.groups@[j], *limits),
                forall|j: int, k: int| 0 <= j < k < i as int
                    ==> (#[trigger] request.groups@[j]).name@ != (#[trigger] request.groups@[k]).name@,
            decreases request.groups@.len() - i,
        {
            let g = &request.groups[i];
            let mut j: usize = 0;
            while j < i
                invariant
                    j <= i < request.groups@.len(),
                    *g == request.groups@[i as int],
                    groups@.len() == i as int,
                    forall|k: int| 0 <= k < i as int
                        ==> group_compiles_to(request.groups@[k], #[trigger] groups@[k]),
                    forall|k: int| 0 <= k < j as int
                        ==> (#[trigger] request.groups@[k]).name@ != request.groups@[i as int].name@,
                decreases i - j,
            {
                proof {
                    assert(group_compiles_to(request.groups@[j as int], groups@[j as int]));
                }
                if groups[j].name.eq(&g.name) {
                    proof {
                        assert(request.groups@[j as int].name@ == request.groups@[i as int].name@);
                        assert(!names_unique(request.groups@));
                    }
                    return Err(FilterError::DuplicateName);
                }
                j = j + 1;
            }
            let criteria = match &g.criteria {
                RequestCriteria::Slots => FilterCriteria::Slots,
                RequestCriteria::Accounts { accounts, owners } => {
                    if accounts.len() > limits.max_addresses || owners.len() > limits.max_addresses {
                        return Err(FilterError::TooManyAddresses);
                    }
                    let ca = match parse_keys(accounts) {
                        Some(v) => v,
                        None => {
                            return Err(FilterError::InvalidPubkey);
                        },
                    };
                    let co = match parse_keys(owners) {
                        Some(v) => v,
                        None => {
                            return Err(FilterError::InvalidPubkey);
                        },
                    };
                    FilterCriteria::Accounts { accounts: ca, owners: co }
                },
                RequestCriteria::Transactions { vote } => FilterCriteria::Transactions { vote: *vote },
                RequestCriteria::Blocks => FilterCriteria::Blocks,
            };
            groups.push(FilterGroup { name: g.name.clone(), criteria });
            i = i + 1;
        }
        Ok(Filter { groups })
    }

    /// Evaluates this filter against one event: the names of the matching
    /// groups, in group order; an empty result means "do not deliver".
    pub fn get_filters(&self, m: &Message) -> (r: Vec<String>)
        ensures
            r@.map_values(|s: String| s@) == self.spec_matched_names(*m),
    {
        let mut r: Vec<String> = Vec::new();
        let mut i: usize = 0;
        while i < self.groups.len()
            invariant
                i <= self.groups@.len(),
                r@.map_values(|s: String| s@) == matched_names(self.groups@.take(i as int), *m),
            decreases self.groups@.len() - i,
        {
            let ghost prefix = self.groups@.take(i as int);
            if group_matches_exec(&self.groups[i], m) {
                r.push(self.groups[i].name.clone());
            }
            i = i + 1;
            proof {
                assert(self.groups@.take(i as int).drop_last() =~= prefix);
                assert(self.groups@.take(i as int).last() == self.groups@[i - 1]);
                assert(r@.map_values(|s: String| s@) =~= matched_names(
                    self.groups@.take(i as int),
                    *m,
                ));
            }
        }
        proof {
            assert(self.groups@.take(self.groups@.len() as int) =~= self.groups@);
        }
        r
    }
}

/// Parses raw addresses into public keys; `None` exactly when one is not
/// well-formed.
fn parse_keys(raw: &Vec<Vec<u8>>) -> (r: Option<Vec<Pubkey>>)
    ensures
        r is Some <==> keys_well_formed(raw@),
        (match r {
            Some(keys) => {
                &&& keys@.len() == raw@.len()
                &&& forall|j: int| 0 <= j < raw@.len() ==> (#[trigger] keys@[j]).bytes@ == raw@[j]@
            },
            None => true,
        }),
{
    let mut keys: Vec<Pubkey> = Vec::new();
    let mut i: usize = 0;
    while i < raw.len()
        invariant
            i <= raw@.len(),
            keys@.len() == i as int,
            forall|j: int| 0 <= j < i as int ==> (#[trigger] keys@[j]).bytes@ == raw@[j]@,
            forall|j: int| 0 <= j < i as int ==> (#[trigger] raw@[j])@.len() == PUBKEY_LEN,
        decreases raw@.len() - i,
    {
        if raw[i].len() != PUBKEY_LEN {
            return None;
        }
        keys.push(Pubkey { bytes: clone_bytes(&raw[i]) });
        i = i + 1;
    }
    Some(keys)
}

/// `a` and `b` hold the same bytes.
fn bytes_eq(a: &Vec<u8>, b: &Vec<u8>) -> (r: bool)
    ensures
        r == (a@ == b@),
{
    if a.len() != b.len() {
        return false;
    }
    let mut i: usize = 0;
    while i < a.len()
        invariant
            i <= a@.len(),
            a@.len() == b@.len(),
            forall|j: int| 0 <= j < i as int ==> a@[j] == b@[j],
        decreases a@.len() - i,
    {
        if a[i] != b[i] {
            return false;
        }
        i = i + 1;
    }
    proof {
        assert(a@ =~= b@);
    }
    true
}

/// The address `p` occurs in the compiled list `keys`.
fn keys_contain(keys: &Vec<Pubkey>, p: &Pubkey) -> (r: bool)
    ensures
        r == key_in(keys@, p.bytes@),
{
    let mut i: usize = 0;
    while i < keys.len()
        invariant
            i <= keys@.len(),
            forall|j: int| 0 <= j < i as int ==> (#[trigger] keys@[j]).bytes@ != p.bytes@,
        decreases keys@.len() - i,
    {
        if bytes_eq(&keys[i].bytes, &p.bytes) {
            return true;
        }
        i = i + 1;
    }
    false
}

/// Decides whether one compiled group matches the event.
fn group_matches_exec(g: &FilterGroup, m: &Message) -> (r: bool)
    ensures
        r == group_matches(*g, *m),
{
    match &g.criteria {
        FilterCriteria::Slots => matches!(m, Message::Slot(_)),
        FilterCriteria::Accounts { accounts, owners } => match m {
            Message::Account(a) => {
                let acc_ok = accounts.len() == 0 || keys_contain(accounts, &a.account.pubkey);
                let own_ok = owners.len() == 0 || keys_contain(owners, &a.account.owner);
                acc_ok && own_ok
            },
            _ => false,
        },
        FilterCriteria::Transactions { vote } => match m {
            Message::Transaction(t) => match vote {
                Some(v) => *v == t.transaction.is_vote,
                None => true,
            },
            _ => false,
        },
        FilterCriteria::Blocks => matches!(m, Message::Block(_)),
    }
}

} // verus!
