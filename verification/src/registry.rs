//! The registry of model-serving backends: an ordered list of
//! `(model_name, addr)` entries with validated, trimmed insertion,
//! first-match removal by address, snapshot listing, and exact-match
//! candidate lookup. Every operation is specified against a sequence
//! model of the registry, and the laws of that model are proved here.

use vstd::prelude::*;
use vstd::string::*;

use crate::models::{BackendView, ProxyServerInfo};
use crate::text::{seq_contains_char, str_contains_char, str_eq, trim_spec, trim_str};

verus! {

/// A registrable address: non-empty once trimmed, with a `:` separator
/// somewhere in the given (untrimmed) string.
pub open spec fn valid_addr(addr: Seq<char>) -> bool {
    trim_spec(addr).len() > 0 && seq_contains_char(addr, ':')
}

/// A registrable model name: non-empty once trimmed.
pub open spec fn valid_model_name(model: Seq<char>) -> bool {
    trim_spec(model).len() > 0
}

/// Whether the registry holds an entry with exactly this model and address.
pub open spec fn has_entry(rs: Seq<BackendView>, model: Seq<char>, addr: Seq<char>) -> bool {
    exists|i: int| 0 <= i < rs.len() && rs[i].model == model && rs[i].addr == addr
}

/// Whether the registry holds an entry with this address, under any model.
pub open spec fn has_addr(rs: Seq<BackendView>, addr: Seq<char>) -> bool {
    exists|i: int| 0 <= i < rs.len() && rs[i].addr == addr
}

/// The registry after an add: unchanged on invalid input or on a pair
/// already present (trimmed comparison), else with the trimmed entry
/// appended.
pub open spec fn spec_add(rs: Seq<BackendView>, model: Seq<char>, addr: Seq<char>) -> Seq<
    BackendView,
> {
    if !valid_addr(addr) {
        rs
    } else if !valid_model_name(model) {
        rs
    } else if has_entry(rs, trim_spec(model), trim_spec(addr)) {
        rs
    } else {
        rs.push(BackendView { model: trim_spec(model), addr: trim_spec(addr) })
    }
}

/// The registry with the first entry at this (already trimmed) address
/// removed; unchanged if no entry has it.
pub open spec fn spec_remove_first(rs: Seq<BackendView>, addr: Seq<char>) -> Seq<BackendView>
    decreases rs.len(),
{
    if rs.len() == 0 {
        rs
    } else if rs[0].addr == addr {
        rs.drop_first()
    } else {
        seq![rs[0]] + spec_remove_first(rs.drop_first(), addr)
    }
}

/// The registry after a remove: unchanged on an invalid address, else
/// with the first entry at the trimmed address removed.
pub open spec fn spec_remove(rs: Seq<BackendView>, addr: Seq<char>) -> Seq<BackendView> {
    if !valid_addr(addr) {
        rs
    } else {
        spec_remove_first(rs, trim_spec(addr))
    }
}

/// The entries serving this model (exact match), in registry order.
pub open spec fn candidates_spec(rs: Seq<BackendView>, model: Seq<char>) -> Seq<BackendView>
    decreases rs.len(),
{
    if rs.len() == 0 {
        Seq::empty()
    } else {
        candidates_spec(rs.drop_last(), model) + (if rs.last().model == model {
            seq![rs.last()]
        } else {
            Seq::empty()
        })
    }
}

/// How many entries hold this (trimmed) address.
pub open spec fn count_addr(rs: Seq<BackendView>, addr: Seq<char>) -> nat
    decreases rs.len(),
{
    if rs.len() == 0 {
        0
    } else {
        (if rs[0].addr == addr {
            1nat
        } else {
            0nat
        }) + count_addr(rs.drop_first(), addr)
    }
}

/// The views of a vector of entries.
pub open spec fn views_of(v: Seq<ProxyServerInfo>) -> Seq<BackendView> {
    v.map_values(|s: ProxyServerInfo| s@)
}

/// Law: viewing a vector of entries keeps its length and views each
/// entry in place.
pub proof fn lemma_views_index(v: Seq<ProxyServerInfo>, k: int)
    requires
        0 <= k < v.len(),
    ensures
        views_of(v).len() == v.len(),
        views_of(v)[k] == v[k]@,
{
}

proof fn lemma_views_push(v: Seq<ProxyServerInfo>, e: ProxyServerInfo)
    ensures
        views_of(v.push(e)) == views_of(v).push(e@),
{
    assert(views_of(v.push(e)) =~= views_of(v).push(e@));
}

proof fn lemma_views_remove(v: Seq<ProxyServerInfo>, i: int)
    requires
        0 <= i < v.len(),
    ensures
        views_of(v.remove(i)) == views_of(v).remove(i),
{
    assert(views_of(v.remove(i)) =~= views_of(v).remove(i));
}

/// The outcome of a registration.
#[derive(Clone, Copy, Debug, PartialEq, Eq, Structural)]
pub enum AddOutcome {
    Created,
    AlreadyExists,
    InvalidAddress,
    InvalidModelName,
}

/// The outcome of an unregistration.
#[derive(Clone, Copy, Debug, PartialEq, Eq, Structural)]
pub enum RemoveOutcome {
    Removed,
    NotFound,
    InvalidAddress,
}

/// The shared list of registered backends, insertion order preserved.
pub struct Registry {
    servers: Vec<ProxyServerInfo>,
}

impl View for Registry {
    type V = Seq<BackendView>;

    closed spec fn view(&self) -> Seq<BackendView> {
        views_of(self.servers@)
    }
}

fn clone_info(s: &ProxyServerInfo) -> (r: ProxyServerInfo)
    ensures
        r@ == s@,
{
    ProxyServerInfo { model_name: s.model_name.clone(), addr: s.addr.clone() }
}

impl Registry {
    pub fn new() -> (r: Registry)
        ensures
            r@ == Seq::<BackendView>::empty(),
    {
        let r = Registry { servers: Vec::new() };
        proof {
            assert(r@ =~= Seq::<BackendView>::empty());
        }
        r
    }

    pub fn len(&self) -> (n: usize)
        ensures
            n == self@.len(),
    {
        self.servers.len()
    }

    pub fn is_empty(&self) -> (r: bool)
        ensures
            r == (self@.len() == 0),
    {
        self.servers.len() == 0
    }

    /// Validates, trims and appends the pair, unless an identical
    /// trimmed pair is already registered.
    pub fn add(&mut self, model_name: &str, addr: &str) -> (o: AddOutcome)
        ensures
            final(self)@ == spec_add(old(self)@, model_name@, addr@),
            (o is InvalidAddress <==> !valid_addr(addr@)),
            (o is InvalidModelName <==> valid_addr(addr@) && !valid_model_name(model_name@)),
            (o is AlreadyExists <==> valid_addr(addr@) && valid_model_name(model_name@)
                && has_entry(old(self)@, trim_spec(model_name@), trim_spec(addr@))),
            (o is Created <==> valid_addr(addr@) && valid_model_name(model_name@) && !has_entry(
                old(self)@,
                trim_spec(model_name@),
                trim_spec(addr@),
            )),
    {
        let ta = trim_str(addr);
        if ta.as_str().is_empty() || !str_contains_char(addr, ':') {
            return AddOutcome::InvalidAddress;
        }
        let tm = trim_str(model_name);
        if tm.as_str().is_empty() {
            return AddOutcome::InvalidModelName;
        }
        let n = self.servers.len();
        let mut i: usize = 0;
        while i < n
            invariant
                n == self.servers.len(),
                0 <= i <= n,
                self.servers@ == old(self).servers@,
                valid_addr(addr@),
                valid_model_name(model_name@),
                tm@ == trim_spec(model_name@),
                ta@ == trim_spec(addr@),
                forall|j: int|
                    0 <= j < i ==> !(self.servers@[j]@.model == tm@ && self.servers@[j]@.addr
                        == ta@),
            decreases n - i,
        {
            if str_eq(self.servers[i].model_name.as_str(), tm.as_str()) && str_eq(
                self.servers[i].addr.as_str(),
                ta.as_str(),
            ) {
                proof {
                    lemma_views_index(old(self).servers@, i as int);
                    assert(old(self)@[i as int].model == trim_spec(model_name@));
                    assert(old(self)@[i as int].addr == trim_spec(addr@));
                }
                return AddOutcome::AlreadyExists;
            }
            i = i + 1;
        }
        proof {
            assert forall|j: int| 0 <= j < old(self)@.len() implies !((#[trigger] old(
                self,
            )@[j]).model == trim_spec(model_name@) && old(self)@[j].addr == trim_spec(addr@)) by {
                lemma_views_index(old(self).servers@, j);
            }
        }
        let entry = ProxyServerInfo { model_name: tm, addr: ta };
        let ghost entry_g = entry;
        self.servers.push(entry);
        proof {
            lemma_views_push(old(self).servers@, entry_g);
        }
        AddOutcome::Created
    }

    /// Validates and trims the address, then removes the first entry
    /// registered at it, whatever model that entry serves.
    pub fn remove(&mut self, addr: &str) -> (o: RemoveOutcome)
        ensures
            final(self)@ == spec_remove(old(self)@, addr@),
            (o is InvalidAddress <==> !valid_addr(addr@)),
            (o is NotFound <==> valid_addr(addr@) && !has_addr(old(self)@, trim_spec(addr@))),
            (o is Removed <==> valid_addr(addr@) && has_addr(old(self)@, trim_spec(addr@))),
    {
        let ta = trim_str(addr);
        if ta.as_str().is_empty() || !str_contains_char(addr, ':') {
            return RemoveOutcome::InvalidAddress;
        }
        let n = self.servers.len();
        let mut i: usize = 0;
        while i < n
            invariant
                n == self.servers.len(),
                0 <= i <= n,
                self.servers@ == old(self).servers@,
                valid_addr(addr@),
                ta@ == trim_spec(addr@),
                forall|j: int| 0 <= j < i ==> self.servers@[j]@.addr != ta@,
            decreases n - i,
        {
            if str_eq(self.servers[i].addr.as_str(), ta.as_str()) {
                proof {
                    lemma_views_index(old(self).servers@, i as int);
                    assert forall|j: int| 0 <= j < i implies (#[trigger] old(self)@[j]).addr
                        != trim_spec(addr@) by {
                        lemma_views_index(old(self).servers@, j);
                    }
                    lemma_spec_remove_first_at(old(self)@, trim_spec(addr@), i as int);
                }
                self.servers.remove(i);
                proof {
                    lemma_views_remove(old(self).servers@, i as int);
                }
                return RemoveOutcome::Removed;
            }
            i = i + 1;
        }
        proof {
            assert forall|j: int| 0 <= j < old(self)@.len() implies (#[trigger] old(
                self,
            )@[j]).addr != trim_spec(addr@) by {
                lemma_views_index(old(self).servers@, j);
            }
            lemma_spec_remove_first_absent(old(self)@, trim_spec(addr@));
        }
        RemoveOutcome::NotFound
    }

    /// A snapshot copy of the registry, in insertion order.
    pub fn list(&self) -> (r: Vec<ProxyServerInfo>)
        ensures
            views_of(r@) == self@,
            r@.len() == self@.len(),
    {
        let mut r: Vec<ProxyServerInfo> = Vec::new();
        let n = self.servers.len();
        let mut i: usize = 0;
        while i < n
            invariant
                n == self.servers.len(),
                0 <= i <= n,
                r@.len() == i as int,
                forall|k: int| 0 <= k < i ==> (#[trigger] r@[k])@ == self.servers@[k]@,
            decreases n - i,
        {
            let e = clone_info(&self.servers[i]);
            r.push(e);
            i = i + 1;
        }
        proof {
            assert forall|k: int| 0 <= k < n implies views_of(r@)[k] == self@[k] by {
                lemma_views_index(r@, k);
                lemma_views_index(self.servers@, k);
            }
            lemma_views_index_len(r@);
            lemma_views_index_len(self.servers@);
            assert(views_of(r@) =~= self@);
        }
        r
    }

    /// Copies of the entries whose model name equals the argument
    /// exactly, in registry order.
    pub fn candidates_for(&self, model_name: &str) -> (r: Vec<ProxyServerInfo>)
        ensures
            views_of(r@) == candidates_spec(self@, model_name@),
            r@.len() == candidates_spec(self@, model_name@).len(),
    {
        let mut r: Vec<ProxyServerInfo> = Vec::new();
        proof {
            assert(views_of(r@) =~= candidates_spec(self@.take(0), model_name@));
        }
        let n = self.servers.len();
        let mut i: usize = 0;
        while i < n
            invariant
                n == self.servers.len(),
                0 <= i <= n,
                views_of(r@) == candidates_spec(self@.take(i as int), model_name@),
            decreases n - i,
        {
            proof {
                lemma_views_index(self.servers@, i as int);
                lemma_candidates_take_step(self@, model_name@, i as int);
            }
            if str_eq(self.servers[i].model_name.as_str(), model_name) {
                let e = clone_info(&self.servers[i]);
                let ghost e_g = e;
                let ghost r_old = r@;
                r.push(e);
                proof {
                    lemma_views_push(r_old, e_g);
                    assert(views_of(r@) =~= candidates_spec(self@.take(i as int + 1), model_name@));
                }
            } else {
                proof {
                    assert(views_of(r@) =~= candidates_spec(self@.take(i as int + 1), model_name@));
                }
            }
            i = i + 1;
        }
        proof {
            assert(self@.take(n as int) =~= self@);
            lemma_views_index_len(r@);
        }
        r
    }

    /// Whether some entry is registered at exactly this address.
    pub fn contains_addr(&self, addr: &str) -> (r: bool)
        ensures
            r == has_addr(self@, addr@),
    {
        let n = self.servers.len();
        let mut i: usize = 0;
        while i < n
            invariant
                n == self.servers.len(),
                0 <= i <= n,
                forall|j: int| 0 <= j < i ==> self.servers@[j]@.addr != addr@,
            decreases n - i,
        {
            if str_eq(self.servers[i].addr.as_str(), addr) {
                proof {
                    lemma_views_index(self.servers@, i as int);
                    assert(self@[i as int].addr == addr@);
                }
                return true;
            }
            i = i + 1;
        }
        proof {
            assert forall|j: int| 0 <= j < self@.len() implies (#[trigger] self@[j]).addr
                != addr@ by {
                lemma_views_index(self.servers@, j);
            }
        }
        false
    }
}

proof fn lemma_views_index_len(v: Seq<ProxyServerInfo>)
    ensures
        views_of(v).len() == v.len(),
{
}

proof fn lemma_spec_remove_first_at(rs: Seq<BackendView>, a: Seq<char>, i: int)
    requires
        0 <= i < rs.len(),
        rs[i].addr == a,
        forall|j: int| 0 <= j < i ==> rs[j].addr != a,
    ensures
        spec_remove_first(rs, a) == rs.remove(i),
    decreases i,
{
    if i == 0 {
        assert(rs.remove(0) =~= rs.drop_first());
    } else {
        lemma_spec_remove_first_at(rs.drop_first(), a, i - 1);
        assert(rs.remove(i) =~= seq![rs[0]] + rs.drop_first().remove(i - 1));
    }
}

proof fn lemma_spec_remove_first_absent(rs: Seq<BackendView>, a: Seq<char>)
    requires
        forall|j: int| 0 <= j < rs.len() ==> rs[j].addr != a,
    ensures
        spec_remove_first(rs, a) == rs,
    decreases rs.len(),
{
    if rs.len() > 0 {
        lemma_spec_remove_first_absent(rs.drop_first(), a);
        assert(seq![rs[0]] + rs.drop_first() =~= rs);
    }
}

proof fn lemma_candidates_take_step(rs: Seq<BackendView>, m: Seq<char>, i: int)
    requires
        0 <= i < rs.len(),
    ensures
        candidates_spec(rs.take(i + 1), m) == candidates_spec(rs.take(i), m) + (if rs[i].model
            == m {
            seq![rs[i]]
        } else {
            Seq::<BackendView>::empty()
        }),
{
    let t = rs.take(i + 1);
    assert(t.drop_last() =~= rs.take(i));
    assert(t.last() == rs[i]);
}

/// An add or remove operation, as replayed on the registry model.
pub enum RegistryOp {
    Add { model: Seq<char>, addr: Seq<char> },
    Remove { addr: Seq<char> },
}

/// The registry after one operation.
pub open spec fn apply_op(rs: Seq<BackendView>, op: RegistryOp) -> Seq<BackendView> {
    match op {
        RegistryOp::Add { model, addr } => spec_add(rs, model, addr),
        RegistryOp::Remove { addr } => spec_remove(rs, addr),
    }
}

/// The registry after a sequence of operations, applied in order.
pub open spec fn replay(rs: Seq<BackendView>, ops: Seq<RegistryOp>) -> Seq<BackendView>
    decreases ops.len(),
{
    if ops.len() == 0 {
        rs
    } else {
        replay(apply_op(rs, ops[0]), ops.drop_first())
    }
}

/// Law: a sequence of operations replayed in one batch equals the
/// batches replayed one after the other. Since every add and remove is
/// an atomic step whose post-state is a function of the pre-state alone,
/// any serialization of concurrent operations yields exactly the state
/// of its sequential replay.
pub proof fn lemma_replay_append(rs: Seq<BackendView>, ops1: Seq<RegistryOp>, ops2: Seq<RegistryOp>)
    ensures
        replay(rs, ops1 + ops2) == replay(replay(rs, ops1), ops2),
    decreases ops1.len(),
{
    if ops1.len() == 0 {
        assert(ops1 + ops2 =~= ops2);
    } else {
        assert((ops1 + ops2)[0] == ops1[0]);
        assert((ops1 + ops2).drop_first() =~= ops1.drop_first() + ops2);
        lemma_replay_append(apply_op(rs, ops1[0]), ops1.drop_first(), ops2);
    }
}

/// Law: adding a pair a second time changes nothing. The first add
/// leaves the trimmed pair present, so repeating it finds the entry and
/// returns the registry as it was.
pub proof fn lemma_add_idempotent(rs: Seq<BackendView>, model: Seq<char>, addr: Seq<char>)
    ensures
        spec_add(spec_add(rs, model, addr), model, addr) == spec_add(rs, model, addr),
        valid_addr(addr) && valid_model_name(model) ==> has_entry(
            spec_add(rs, model, addr),
            trim_spec(model),
            trim_spec(addr),
        ),
{
    if valid_addr(addr) && valid_model_name(model) {
        let tm = trim_spec(model);
        let ta = trim_spec(addr);
        let rs1 = spec_add(rs, model, addr);
        if !has_entry(rs, tm, ta) {
            assert(rs1[rs.len() as int].model == tm && rs1[rs.len() as int].addr == ta);
        }
    }
}

proof fn lemma_count_has(rs: Seq<BackendView>, a: Seq<char>)
    ensures
        (count_addr(rs, a) == 0) <==> !has_addr(rs, a),
    decreases rs.len(),
{
    if rs.len() > 0 {
        lemma_count_has(rs.drop_first(), a);
        if has_addr(rs.drop_first(), a) {
            let i = choose|i: int| 0 <= i < rs.drop_first().len() && rs.drop_first()[i].addr == a;
            assert(rs[i + 1].addr == a);
        }
        if has_addr(rs, a) && rs[0].addr != a {
            let i = choose|i: int| 0 <= i < rs.len() && rs[i].addr == a;
            assert(rs.drop_first()[i - 1].addr == a);
        }
    }
}

/// Law: removing a present address removes exactly one entry bearing it
/// (the first), and only that entry; an absent address removes nothing.
pub proof fn lemma_remove_first_count(rs: Seq<BackendView>, a: Seq<char>)
    ensures
        !has_addr(rs, a) ==> spec_remove_first(rs, a) == rs,
        has_addr(rs, a) ==> spec_remove_first(rs, a).len() == rs.len() - 1,
        has_addr(rs, a) ==> count_addr(spec_remove_first(rs, a), a) + 1 == count_addr(rs, a),
    decreases rs.len(),
{
    lemma_count_has(rs, a);
    if rs.len() > 0 {
        lemma_remove_first_count(rs.drop_first(), a);
        lemma_count_has(rs.drop_first(), a);
        if rs[0].addr == a {
            assert(has_addr(rs, a));
        } else {
            if has_addr(rs, a) {
                let i = choose|i: int| 0 <= i < rs.len() && rs[i].addr == a;
                assert(rs.drop_first()[i - 1].addr == a);
            }
            if has_addr(rs.drop_first(), a) {
                let i = choose|i: int|
                    0 <= i < rs.drop_first().len() && rs.drop_first()[i].addr == a;
                assert(rs[i + 1].addr == a);
            }
            let rest = spec_remove_first(rs.drop_first(), a);
            assert((seq![rs[0]] + rest).drop_first() =~= rest);
            if !has_addr(rs, a) {
                assert(seq![rs[0]] + rest =~= rs);
            }
        }
    }
}

/// Law: an address held by exactly one entry is absent after its removal.
pub proof fn lemma_remove_unique_excludes(rs: Seq<BackendView>, a: Seq<char>)
    requires
        count_addr(rs, a) == 1,
    ensures
        !has_addr(spec_remove_first(rs, a), a),
{
    lemma_count_has(rs, a);
    lemma_remove_first_count(rs, a);
    lemma_count_has(spec_remove_first(rs, a), a);
}

/// No two entries hold the same (model, addr) pair.
pub open spec fn unique_pairs(rs: Seq<BackendView>) -> bool {
    forall|i: int, j: int|
        0 <= i < rs.len() && 0 <= j < rs.len() && i != j ==> !((#[trigger] rs[i]).model == (
        #[trigger] rs[j]).model && rs[i].addr == rs[j].addr)
}

/// Law: an add never creates a duplicate pair: it either refuses the
/// input, finds the trimmed pair already present and changes nothing,
/// or appends a pair that was not there. Since a new registry is empty
/// and every operation steps by `spec_add` or `spec_remove`, no
/// reachable registry holds a duplicate pair.
pub proof fn lemma_add_preserves_unique_pairs(
    rs: Seq<BackendView>,
    model: Seq<char>,
    addr: Seq<char>,
)
    requires
        unique_pairs(rs),
    ensures
        unique_pairs(spec_add(rs, model, addr)),
{
    let rs1 = spec_add(rs, model, addr);
    if valid_addr(addr) && valid_model_name(model) && !has_entry(
        rs,
        trim_spec(model),
        trim_spec(addr),
    ) {
        assert forall|i: int, j: int|
            0 <= i < rs1.len() && 0 <= j < rs1.len() && i != j implies !((#[trigger] rs1[i]).model
            == (#[trigger] rs1[j]).model && rs1[i].addr == rs1[j].addr) by {
            if i == rs.len() && j < rs.len() {
                if rs1[i].model == rs1[j].model && rs1[i].addr == rs1[j].addr {
                    assert(rs[j].model == trim_spec(model) && rs[j].addr == trim_spec(addr));
                    assert(false);
                }
            } else if j == rs.len() && i < rs.len() {
                if rs1[i].model == rs1[j].model && rs1[i].addr == rs1[j].addr {
                    assert(rs[i].model == trim_spec(model) && rs[i].addr == trim_spec(addr));
                    assert(false);
                }
            }
        }
    }
}

proof fn lemma_first_match_exists(rs: Seq<BackendView>, a: Seq<char>)
    requires
        has_addr(rs, a),
    ensures
        exists|i: int|
            0 <= i < rs.len() && (#[trigger] rs[i]).addr == a && (forall|j: int|
                0 <= j < i ==> (#[trigger] rs[j]).addr != a),
    decreases rs.len(),
{
    if rs[0].addr == a {
        assert(rs[0].addr == a && (forall|j: int| 0 <= j < 0 ==> (#[trigger] rs[j]).addr != a));
    } else {
        let w = choose|i: int| 0 <= i < rs.len() && rs[i].addr == a;
        assert(rs.drop_first()[w - 1].addr == a);
        lemma_first_match_exists(rs.drop_first(), a);
        let i = choose|i: int|
            0 <= i < rs.drop_first().len() && (#[trigger] rs.drop_first()[i]).addr == a && (
            forall|j: int| 0 <= j < i ==> (#[trigger] rs.drop_first()[j]).addr != a);
        assert(rs[i + 1].addr == a);
        assert forall|j: int| 0 <= j < i + 1 implies (#[trigger] rs[j]).addr != a by {
            if j > 0 {
                assert(rs.drop_first()[j - 1].addr != a);
            }
        }
    }
}

proof fn lemma_remove_first_preserves_unique(rs: Seq<BackendView>, a: Seq<char>)
    requires
        unique_pairs(rs),
    ensures
        unique_pairs(spec_remove_first(rs, a)),
{
    if has_addr(rs, a) {
        lemma_first_match_exists(rs, a);
        let i = choose|i: int|
            0 <= i < rs.len() && (#[trigger] rs[i]).addr == a && (forall|j: int|
                0 <= j < i ==> (#[trigger] rs[j]).addr != a);
        lemma_spec_remove_first_at(rs, a, i);
        let rr = rs.remove(i);
        assert forall|p: int, q: int|
            0 <= p < rr.len() && 0 <= q < rr.len() && p != q implies !((#[trigger] rr[p]).model
            == (#[trigger] rr[q]).model && rr[p].addr == rr[q].addr) by {
            let p0: int = if p < i {
                p
            } else {
                p + 1
            };
            let q0: int = if q < i {
                q
            } else {
                q + 1
            };
            assert(rr[p] == rs[p0]);
            assert(rr[q] == rs[q0]);
        }
    } else {
        assert forall|j: int| 0 <= j < rs.len() implies (#[trigger] rs[j]).addr != a by {}
        lemma_spec_remove_first_absent(rs, a);
    }
}

/// Law: a remove never creates a duplicate pair either: it only takes
/// an entry away.
pub proof fn lemma_remove_preserves_unique_pairs(rs: Seq<BackendView>, addr: Seq<char>)
    requires
        unique_pairs(rs),
    ensures
        unique_pairs(spec_remove(rs, addr)),
{
    if valid_addr(addr) {
        lemma_remove_first_preserves_unique(rs, trim_spec(addr));
    }
}

/// Law: no sequence of operations ever creates a duplicate pair: a
/// registry that starts without duplicates — as the empty one does —
/// never gains one, however the operations are ordered.
pub proof fn lemma_replay_unique_pairs(rs: Seq<BackendView>, ops: Seq<RegistryOp>)
    requires
        unique_pairs(rs),
    ensures
        unique_pairs(replay(rs, ops)),
    decreases ops.len(),
{
    if ops.len() > 0 {
        match ops[0] {
            RegistryOp::Add { model, addr } => lemma_add_preserves_unique_pairs(rs, model, addr),
            RegistryOp::Remove { addr } => lemma_remove_preserves_unique_pairs(rs, addr),
        }
        lemma_replay_unique_pairs(apply_op(rs, ops[0]), ops.drop_first());
    }
}

/// Law: with no duplicate pairs, removing an address takes its first
/// entry's pair out entirely: the registry afterwards holds that
/// (model, addr) pair nowhere, so a subsequent listing excludes the
/// removed entry.
pub proof fn lemma_remove_excludes_pair(rs: Seq<BackendView>, a: Seq<char>, i: int)
    requires
        unique_pairs(rs),
        0 <= i < rs.len(),
        rs[i].addr == a,
        forall|j: int| 0 <= j < i ==> (#[trigger] rs[j]).addr != a,
    ensures
        !has_entry(spec_remove_first(rs, a), rs[i].model, a),
{
    lemma_spec_remove_first_at(rs, a, i);
    let rr = rs.remove(i);
    if has_entry(rr, rs[i].model, a) {
        let k = choose|k: int|
            0 <= k < rr.len() && rr[k].model == rs[i].model && rr[k].addr == a;
        let k0: int = if k < i {
            k
        } else {
            k + 1
        };
        assert(rr[k] == rs[k0]);
        assert(false);
    }
}

/// Law: the candidate set for a model holds exactly the registered
/// entries whose model name equals it: every candidate serves the model
/// and is a registered entry, and a candidate exists if and only if some
/// entry serves the model.
pub proof fn lemma_candidates_exact(rs: Seq<BackendView>, m: Seq<char>)
    ensures
        forall|k: int|
            0 <= k < candidates_spec(rs, m).len() ==> (#[trigger] candidates_spec(rs, m)[k]).model
                == m,
        forall|k: int|
            0 <= k < candidates_spec(rs, m).len() ==> rs.contains(
                #[trigger] candidates_spec(rs, m)[k],
            ),
        (exists|i: int| 0 <= i < rs.len() && rs[i].model == m) <==> candidates_spec(rs, m).len()
            > 0,
    decreases rs.len(),
{
    if rs.len() > 0 {
        lemma_candidates_exact(rs.drop_last(), m);
        let c = candidates_spec(rs, m);
        let cd = candidates_spec(rs.drop_last(), m);
        assert forall|k: int| 0 <= k < c.len() implies (#[trigger] c[k]).model == m && rs.contains(
            c[k],
        ) by {
            if k < cd.len() {
                assert(c[k] == cd[k]);
                assert(rs.drop_last().contains(cd[k]));
                let j = choose|j: int| 0 <= j < rs.drop_last().len() && rs.drop_last()[j] == cd[k];
                assert(rs[j] == cd[k]);
            } else {
                assert(rs.last().model == m);
                assert(c[k] == rs.last());
                assert(rs[rs.len() - 1] == rs.last());
            }
        }
        if exists|i: int| 0 <= i < rs.len() && rs[i].model == m {
            let i = choose|i: int| 0 <= i < rs.len() && rs[i].model == m;
            if i < rs.len() - 1 {
                assert(rs.drop_last()[i].model == m);
            }
        }
        if cd.len() > 0 {
            assert(c.len() > 0);
        }
    }
}

} // verus!
