//! The tree of contexts: each context holds the value it adds, if any, its
//! deadline, its parent, and the cell in which its own error is recorded.
use vstd::prelude::*;
use std::any::TypeId;
use std::sync::Arc;
use std::time::{Duration, Instant};
use tokio::sync::broadcast::Sender;
use tokio::sync::RwLock;
use crate::error::ContextError;
use crate::key::TypedKey;
use crate::runtime::{error_lock, instant_checked_add, instant_now, same_type, signal_sender};

verus! {

/// A value stored in a context: its key, the identifier of the value's type,
/// and the value.
pub struct Entry<P> {
    pub key: TypedKey,
    pub value_type: TypeId,
    pub value: P,
}

/// A context. `P` is the type in which values are stored.
pub struct ContextImpl<P> {
    /// The value that this context adds, if any.
    value: Option<Entry<P>>,
    /// The parent context, if any.
    parent: Option<Arc<ContextImpl<P>>>,
    /// Sender on which the waiters of this context are woken.
    cancel_tx: Sender<()>,
    /// The deadline, if one is set.
    deadline: Option<Instant>,
    /// The error recorded for this context itself.
    error: Arc<RwLock<Option<ContextError>>>,
}

impl<P> ContextImpl<P> {
    /// The parent context, if any.
    pub closed spec fn parent_spec(self) -> Option<Arc<ContextImpl<P>>> {
        self.parent
    }

    /// The value that this context itself adds, if any.
    pub closed spec fn value_spec(self) -> Option<Entry<P>> {
        self.value
    }

    /// The deadline of this context, if one is set.
    pub closed spec fn deadline_spec(self) -> Option<Instant> {
        self.deadline
    }

    /// The cell in which this context's own error is recorded.
    pub closed spec fn error_spec(self) -> Arc<RwLock<Option<ContextError>>> {
        self.error
    }

    /// The sender on which the waiters of this context are woken.
    pub closed spec fn cancel_tx_spec(self) -> Sender<()> {
        self.cancel_tx
    }

    /// This context, then its parent, and so on up to the root.
    pub closed spec fn lineage(self) -> Seq<ContextImpl<P>>
        decreases self,
    {
        match self.parent {
            Some(p) => seq![self] + (*p).lineage(),
            None => seq![self],
        }
    }
}

/// The types of value under which a lookup for `wanted` finds a value:
/// `wanted` itself and, where `wanted` is the text type `text` (`String`),
/// also text stored as a literal of the type `text_literal` (`&'static str`).
pub fn readable_types(wanted: TypeId, text: TypeId, text_literal: TypeId) -> (r: Vec<TypeId>)
    ensures
        r@ == (if wanted == text {
            seq![wanted, text_literal]
        } else {
            seq![wanted]
        }),
{
    let mut r: Vec<TypeId> = Vec::new();
    r.push(wanted);
    if same_type(&wanted, &text) {
        r.push(text_literal);
    }
    r
}

/// Whether `ty` is one of `accepted`.
fn type_among(ty: &TypeId, accepted: &Vec<TypeId>) -> (r: bool)
    ensures
        r == accepted@.contains(*ty),
{
    let mut i: usize = 0;
    while i < accepted.len()
        invariant
            0 <= i <= accepted@.len(),
            forall|j: int| 0 <= j < i ==> accepted@[j] != *ty,
        decreases accepted@.len() - i,
    {
        if same_type(&accepted[i], ty) {
            assert(accepted@[i as int] == *ty);
            return true;
        }
        i = i + 1;
    }
    false
}

/// The handle that cancels the context it was made with.
pub struct CancelFn<P> {
    context: Arc<ContextImpl<P>>,
}

impl<P> CancelFn<P> {
    /// The context that this handle cancels.
    pub closed spec fn context_spec(self) -> Arc<ContextImpl<P>> {
        self.context
    }
}

impl<P> ContextImpl<P> {
    /// A context with the given value, parent and deadline, and a fresh error
    /// cell and sender of its own.
    fn node(value: Option<Entry<P>>, parent: Option<Arc<ContextImpl<P>>>, deadline: Option<Instant>) -> (r: ContextImpl<P>)
        ensures
            r.value == value,
            r.parent == parent,
            r.deadline == deadline,
    {
        ContextImpl {
            value,
            parent,
            cancel_tx: signal_sender(1),
            deadline,
            error: Arc::new(error_lock(None)),
        }
    }

    /// A new empty context: no parent, no value, no deadline.
    pub fn background() -> (r: Arc<ContextImpl<P>>)
        ensures
            r.parent_spec() is None,
            r.value_spec() is None,
            r.deadline_spec() is None,
    {
        Arc::new(Self::node(None, None, None))
    }

    /// A child of `parent` that can be canceled, with no value of its own; it
    /// keeps the deadline of `parent`.
    pub fn with_cancel(parent: &Arc<ContextImpl<P>>) -> (r: (Arc<ContextImpl<P>>, CancelFn<P>))
        ensures
            r.0.parent_spec() == Some(*parent),
            r.0.value_spec() is None,
            r.0.deadline_spec() == parent.deadline_spec(),
            r.1.context_spec() == r.0,
    {
        let ctx = Arc::new(Self::node(None, Some(parent.clone()), parent.deadline));
        let cancel_fn = CancelFn { context: ctx.clone() };
        (ctx, cancel_fn)
    }

    /// A child of `parent` that can be canceled and whose deadline is `deadline`.
    pub fn with_deadline(parent: &Arc<ContextImpl<P>>, deadline: Instant) -> (r: (Arc<ContextImpl<P>>, CancelFn<P>))
        ensures
            r.0.parent_spec() == Some(*parent),
            r.0.value_spec() is None,
            r.0.deadline_spec() == Some(deadline),
            r.1.context_spec() == r.0,
    {
        let ctx = Arc::new(Self::node(None, Some(parent.clone()), Some(deadline)));
        let cancel_fn = CancelFn { context: ctx.clone() };
        (ctx, cancel_fn)
    }

    /// A child of `parent` whose deadline is `timeout` from now, or `None`
    /// where that instant cannot be represented.
    pub fn with_timeout(parent: &Arc<ContextImpl<P>>, timeout: Duration) -> (r: Option<(Arc<ContextImpl<P>>, CancelFn<P>)>)
        ensures
            r matches Some(pair) ==> {
                &&& pair.0.parent_spec() == Some(*parent)
                &&& pair.0.value_spec() is None
                &&& pair.0.deadline_spec() is Some
                &&& pair.1.context_spec() == pair.0
            },
            exists|now: Instant|
                {
                    &&& (r is None <==> #[trigger] crate::runtime::instant_plus(now, timeout) is None)
                    &&& (r matches Some(pair) ==> pair.0.deadline_spec() == crate::runtime::instant_plus(now, timeout))
                },
    {
        let now = instant_now();
        let r = Self::with_computed_deadline(parent, instant_checked_add(now, timeout));
        assert(r is None <==> crate::runtime::instant_plus(now, timeout) is None);
        r
    }

    /// What `with_timeout` returns once the deadline `timeout` from now has
    /// been computed: `None` where it could not be represented (`deadline` is
    /// `None`), and otherwise a child of `parent` that can be canceled and
    /// whose deadline is that instant, with the handle that cancels it.
    pub fn with_computed_deadline(parent: &Arc<ContextImpl<P>>, deadline: Option<Instant>) -> (r: Option<(Arc<ContextImpl<P>>, CancelFn<P>)>)
        ensures
            r is None <==> deadline is None,
            r matches Some(pair) ==> {
                &&& pair.0.parent_spec() == Some(*parent)
                &&& pair.0.value_spec() is None
                &&& pair.0.deadline_spec() == deadline
                &&& pair.1.context_spec() == pair.0
            },
    {
        match deadline {
            Some(at) => Some(Self::with_deadline(parent, at)),
            None => None,
        }
    }

    /// A child of `parent` that holds `value` under `key`; `value_type`
    /// identifies the type of the value. It keeps the deadline of `parent`.
    pub fn with_value(parent: &Arc<ContextImpl<P>>, key: TypedKey, value_type: TypeId, value: P) -> (r: Arc<ContextImpl<P>>)
        ensures
            r.parent_spec() == Some(*parent),
            r.value_spec() == Some(Entry { key, value_type, value }),
            r.deadline_spec() == parent.deadline_spec(),
    {
        let entry = Entry { key, value_type, value };
        Arc::new(Self::node(Some(entry), Some(parent.clone()), parent.deadline))
    }

    /// The deadline of this context, if one is set.
    pub fn deadline(&self) -> (r: Option<Instant>)
        ensures
            r == self.deadline_spec(),
    {
        self.deadline
    }

    /// The parent of this context, if any.
    pub fn parent(&self) -> (r: Option<&Arc<ContextImpl<P>>>)
        ensures
            r matches Some(p) ==> self.parent_spec() == Some(*p),
            r is None ==> self.parent_spec() is None,
    {
        match &self.parent {
            Some(p) => Some(p),
            None => None,
        }
    }

    /// The cell in which this context's own error is recorded.
    pub fn error_cell(&self) -> (r: &Arc<RwLock<Option<ContextError>>>)
        ensures
            *r == self.error_spec(),
    {
        &self.error
    }

    /// The sender on which the waiters of this context are woken.
    pub fn cancel_tx(&self) -> (r: &Sender<()>)
        ensures
            *r == self.cancel_tx_spec(),
    {
        &self.cancel_tx
    }

    /// Whether this context itself holds a value under `key` of the type `value_type`.
    pub open spec fn stores(self, key: (Seq<u8>, TypeId), value_type: TypeId) -> bool {
        self.value_spec() matches Some(e) && e.key@ == key && e.value_type == value_type
    }

    /// The value stored under `key` with a value of the type `value_type`, in
    /// this context or its nearest ancestor that holds one.
    pub open spec fn value_of(self, key: (Seq<u8>, TypeId), value_type: TypeId) -> Option<P>
        decreases self,
    {
        if self.stores(key, value_type) {
            Some(self.value_spec().unwrap().value)
        } else {
            match self.parent_spec() {
                Some(p) => (*p).value_of(key, value_type),
                None => None,
            }
        }
    }

    /// Whether this context itself holds a value under `key` whose type is one
    /// of `accepted`.
    pub open spec fn stores_one_of(self, key: (Seq<u8>, TypeId), accepted: Seq<TypeId>) -> bool {
        self.value_spec() matches Some(e) && e.key@ == key && accepted.contains(e.value_type)
    }

    /// The entry stored under `key` with a value whose type is one of
    /// `accepted`, in this context or its nearest ancestor that holds one.
    pub open spec fn entry_among(self, key: (Seq<u8>, TypeId), accepted: Seq<TypeId>) -> Option<Entry<P>>
        decreases self,
    {
        if self.stores_one_of(key, accepted) {
            self.value_spec()
        } else {
            match self.parent_spec() {
                Some(p) => (*p).entry_among(key, accepted),
                None => None,
            }
        }
    }

    /// Looks up the value stored under `key` whose type is `value_type`: in
    /// this context first, then in its parent, and so on up to the root.
    pub fn get_value(&self, key: &TypedKey, value_type: &TypeId) -> (r: Option<&P>)
        ensures
            r matches Some(v) ==> self.value_of(key@, *value_type) == Some(*v),
            r is None ==> self.value_of(key@, *value_type) is None,
        decreases self,
    {
        if let Some(e) = &self.value {
            if e.key.matches(key) && same_type(&e.value_type, value_type) {
                return Some(&e.value);
            }
        }
        match &self.parent {
            Some(p) => p.get_value(key, value_type),
            None => None,
        }
    }

    /// Whether this context or one of its ancestors holds a value under a key
    /// of the type `key_type`.
    pub open spec fn has_key_of_type(self, key_type: TypeId) -> bool
        decreases self,
    {
        ||| (self.value_spec() matches Some(e) && e.key@.1 == key_type)
        ||| match self.parent_spec() {
            Some(p) => (*p).has_key_of_type(key_type),
            None => false,
        }
    }

    /// Whether this context or one of its ancestors holds a value under a key
    /// of the type `key_type`; where none does, no lookup by a key of that type
    /// can find a value, and the key need not be encoded.
    pub fn holds_key_of_type(&self, key_type: &TypeId) -> (r: bool)
        ensures
            r == self.has_key_of_type(*key_type),
        decreases self,
    {
        if let Some(e) = &self.value {
            if same_type(&e.key.type_id(), key_type) {
                return true;
            }
        }
        match &self.parent {
            Some(p) => p.holds_key_of_type(key_type),
            None => false,
        }
    }

    /// Looks up the entry stored under `key` whose value's type is one of
    /// `accepted`: in this context first, then in its parent, and so on up to
    /// the root. The nearest such entry is returned, whichever of the accepted
    /// types its value has.
    pub fn find_entry(&self, key: &TypedKey, accepted: &Vec<TypeId>) -> (r: Option<&Entry<P>>)
        ensures
            r matches Some(e) ==> self.entry_among(key@, accepted@) == Some(*e),
            r is None ==> self.entry_among(key@, accepted@) is None,
        decreases self,
    {
        if let Some(e) = &self.value {
            if e.key.matches(key) && type_among(&e.value_type, accepted) {
                return Some(e);
            }
        }
        match &self.parent {
            Some(p) => p.find_entry(key, accepted),
            None => None,
        }
    }

    /// Appends this context, then its parent, and so on up to the root.
    fn push_lineage<'a>(&'a self, out: &mut Vec<&'a ContextImpl<P>>)
        ensures
            final(out)@.len() == old(out)@.len() + self.lineage().len(),
            forall|i: int| 0 <= i < old(out)@.len() ==> final(out)@[i] == old(out)@[i],
            forall|j: int| 0 <= j < self.lineage().len() ==> *final(out)@[old(out)@.len() + j] == self.lineage()[j],
        decreases self,
    {
        out.push(self);
        match &self.parent {
            Some(p) => {
                let ghost mid = out@;
                p.push_lineage(out);
                assert forall|j: int| 0 <= j < self.lineage().len() implies *out@[old(out)@.len() + j] == self.lineage()[j] by {
                    if j > 0 {
                        assert(self.lineage()[j] == (**p).lineage()[j - 1]);
                    }
                }
            },
            None => {},
        }
    }

    /// This context, then its parent, and so on up to the root.
    pub fn lineage_vec(&self) -> (r: Vec<&ContextImpl<P>>)
        ensures
            r@.len() == self.lineage().len(),
            forall|j: int| 0 <= j < r@.len() ==> *r@[j] == self.lineage()[j],
    {
        let mut out: Vec<&ContextImpl<P>> = Vec::new();
        self.push_lineage(&mut out);
        out
    }
}

/// Clones of a cancel handle share its context, so that any of them cancels it.
impl<P> Clone for CancelFn<P> {
    fn clone(&self) -> (r: Self)
        ensures
            r.context_spec() == self.context_spec(),
    {
        CancelFn { context: self.context.clone() }
    }
}

impl<P> CancelFn<P> {
    /// The context that this handle cancels.
    pub fn context(&self) -> (r: &Arc<ContextImpl<P>>)
        ensures
            *r == self.context_spec(),
    {
        &self.context
    }
}

impl<P> ContextImpl<P> {
    /// The parent, where there is one.
    closed spec fn parent_node(self) -> ContextImpl<P> {
        *self.parent.unwrap()
    }

    /// A context reads the value it stores itself.
    pub proof fn lemma_value_visible_where_stored(self, entry: Entry<P>)
        requires
            self.value_spec() == Some(entry),
        ensures
            self.stores(entry.key@, entry.value_type),
            self.value_of(entry.key@, entry.value_type) == Some(entry.value),
    {
    }

    /// Where a context does not store a value under a key itself, it reads
    /// what its parent reads; a root reads nothing.
    pub proof fn lemma_value_inherited(self, key: (Seq<u8>, TypeId), value_type: TypeId)
        requires
            !self.stores(key, value_type),
        ensures
            self.parent_spec() matches Some(p) ==> self.value_of(key, value_type) == (*p).value_of(key, value_type),
            self.parent_spec() is None ==> self.value_of(key, value_type) is None,
    {
    }

    /// The lineage starts with the context itself and goes on with the lineage
    /// of its parent.
    pub proof fn lemma_lineage_shape(self)
        ensures
            self.lineage().len() >= 1,
            self.lineage()[0] == self,
            self.parent_spec() matches Some(p) ==> self.lineage() == seq![self] + (*p).lineage(),
            self.parent_spec() is None ==> self.lineage() == seq![self],
    {
    }

    /// The value a context reads under a key is the one of the nearest context
    /// in its lineage (itself, then its ancestors) that stores one: values pass
    /// down to descendants, never up, and the nearest one hides those above it.
    pub proof fn lemma_value_from_nearest_in_lineage(self, key: (Seq<u8>, TypeId), value_type: TypeId)
        ensures
            self.value_of(key, value_type) is None <==> (forall|i: int|
                0 <= i < self.lineage().len() ==> !#[trigger] self.lineage()[i].stores(key, value_type)),
            self.value_of(key, value_type) is Some ==> exists|i: int|
                0 <= i < self.lineage().len()
                && #[trigger] self.lineage()[i].stores(key, value_type)
                && (forall|j: int| 0 <= j < i ==> !#[trigger] self.lineage()[j].stores(key, value_type))
                && self.value_of(key, value_type) == Some(self.lineage()[i].value_spec().unwrap().value),
        decreases self,
    {
        let lin = self.lineage();
        assert(lin[0] == self);
        if self.stores(key, value_type) {
            assert(lin[0].stores(key, value_type));
        } else {
            match self.parent {
                Some(_) => {
                    let pc = self.parent_node();
                    pc.lemma_value_from_nearest_in_lineage(key, value_type);
                    let plin = pc.lineage();
                    assert(lin == seq![self] + plin);
                    assert forall|i: int| 1 <= i < lin.len() implies lin[i] == plin[i - 1] by {}
                    if pc.value_of(key, value_type) is Some {
                        let k = choose|k: int|
                            0 <= k < plin.len()
                            && #[trigger] plin[k].stores(key, value_type)
                            && (forall|j: int| 0 <= j < k ==> !#[trigger] plin[j].stores(key, value_type))
                            && pc.value_of(key, value_type) == Some(plin[k].value_spec().unwrap().value);
                        assert(lin[k + 1] == plin[k]);
                        assert forall|j: int| 0 <= j < k + 1 implies !#[trigger] lin[j].stores(key, value_type) by {
                            if j > 0 {
                                assert(lin[j] == plin[j - 1]);
                            }
                        }
                    } else {
                        assert forall|i: int| 0 <= i < lin.len() implies !#[trigger] lin[i].stores(key, value_type) by {
                            if i > 0 {
                                assert(lin[i] == plin[i - 1]);
                            }
                        }
                    }
                },
                None => {
                    assert(lin.len() == 1);
                },
            }
        }
    }
}

impl<P> ContextImpl<P> {
    /// Looking up among a single type is looking up that type: the entry found
    /// holds the value that `value_of` reads, and there is none where it reads
    /// none.
    pub proof fn lemma_single_type_lookup(self, key: (Seq<u8>, TypeId), value_type: TypeId)
        ensures
            self.entry_among(key, seq![value_type]) is None <==> self.value_of(key, value_type) is None,
            self.entry_among(key, seq![value_type]) matches Some(e) ==> self.value_of(key, value_type) == Some(
                e.value,
            ),
        decreases self,
    {
        assert(seq![value_type].contains(value_type)) by {
            assert(seq![value_type][0] == value_type);
        }
        assert(self.stores_one_of(key, seq![value_type]) == self.stores(key, value_type));
        match self.parent {
            Some(_) => {
                self.parent_node().lemma_single_type_lookup(key, value_type);
            },
            None => {},
        }
    }
}

impl<P> ContextImpl<P> {
    /// Lookups are typed: where no context in the lineage holds a value under a
    /// key of the type of `key`, a lookup by `key` finds nothing, whatever the
    /// types accepted.
    pub proof fn lemma_lookup_needs_key_type(self, key: (Seq<u8>, TypeId), accepted: Seq<TypeId>)
        requires
            !self.has_key_of_type(key.1),
        ensures
            self.entry_among(key, accepted) is None,
            forall|value_type: TypeId| #[trigger] self.value_of(key, value_type) is None,
        decreases self,
    {
        match self.parent {
            Some(_) => {
                let pc = self.parent_node();
                pc.lemma_lookup_needs_key_type(key, accepted);
                assert forall|value_type: TypeId| #[trigger] self.value_of(key, value_type) is None by {
                    assert(pc.value_of(key, value_type) is None);
                }
            },
            None => {},
        }
    }
}

impl<P> ContextImpl<P> {
    /// A context whose own entry is not acceptable to a lookup (it holds no
    /// value, or one under another key, or one whose type is not among
    /// `accepted`, however many types that list holds) hides nothing of its
    /// ancestors: the lookup reads what its parent reads, and at a root it
    /// reads nothing.
    pub proof fn lemma_unacceptable_entry_hides_nothing(self, key: (Seq<u8>, TypeId), accepted: Seq<TypeId>)
        requires
            !(self.value_spec() matches Some(e) && e.key@ == key && accepted.contains(e.value_type)),
        ensures
            self.parent_spec() matches Some(p) ==> self.entry_among(key, accepted) == (*p).entry_among(key, accepted),
            self.parent_spec() is None ==> self.entry_among(key, accepted) is None,
    {
    }

    /// A context whose own entry is acceptable to a lookup answers it with
    /// that entry, whatever its ancestors hold.
    pub proof fn lemma_acceptable_entry_answers(self, key: (Seq<u8>, TypeId), accepted: Seq<TypeId>)
        requires
            self.value_spec() matches Some(e) && e.key@ == key && accepted.contains(e.value_type),
        ensures
            self.entry_among(key, accepted) == self.value_spec(),
    {
    }

    /// A lookup among several types finds the entry of the nearest context in
    /// the lineage whose entry is under the key and of one of the accepted
    /// types, whichever of them; it finds nothing exactly where no context in
    /// the lineage holds such an entry. What it finds is under the key and of
    /// an accepted type.
    pub proof fn lemma_entry_from_nearest_in_lineage(self, key: (Seq<u8>, TypeId), accepted: Seq<TypeId>)
        ensures
            self.entry_among(key, accepted) matches Some(e) ==> e.key@ == key && accepted.contains(e.value_type),
            self.entry_among(key, accepted) is None <==> (forall|i: int|
                0 <= i < self.lineage().len() ==> !(#[trigger] self.lineage()[i].value_spec() matches Some(e)
                    && e.key@ == key && accepted.contains(e.value_type))),
            self.entry_among(key, accepted) is Some ==> exists|i: int|
                0 <= i < self.lineage().len()
                && self.entry_among(key, accepted) == #[trigger] self.lineage()[i].value_spec()
                && (forall|j: int| 0 <= j < i ==> !(#[trigger] self.lineage()[j].value_spec() matches Some(e)
                    && e.key@ == key && accepted.contains(e.value_type))),
        decreases self,
    {
        let lin = self.lineage();
        assert(lin[0] == self);
        if self.stores_one_of(key, accepted) {
        } else {
            match self.parent {
                Some(_) => {
                    let pc = self.parent_node();
                    pc.lemma_entry_from_nearest_in_lineage(key, accepted);
                    let plin = pc.lineage();
                    assert(lin == seq![self] + plin);
                    assert forall|i: int| 1 <= i < lin.len() implies lin[i] == plin[i - 1] by {}
                    if pc.entry_among(key, accepted) is Some {
                        let k = choose|k: int|
                            0 <= k < plin.len()
                            && pc.entry_among(key, accepted) == #[trigger] plin[k].value_spec()
                            && (forall|j: int| 0 <= j < k ==> !(#[trigger] plin[j].value_spec() matches Some(e)
                                && e.key@ == key && accepted.contains(e.value_type)));
                        assert(lin[k + 1] == plin[k]);
                        assert forall|j: int| 0 <= j < k + 1 implies !(#[trigger] lin[j].value_spec() matches Some(e)
                            && e.key@ == key && accepted.contains(e.value_type)) by {
                            if j > 0 {
                                assert(lin[j] == plin[j - 1]);
                            }
                        }
                    } else {
                        assert forall|i: int| 0 <= i < lin.len() implies !(#[trigger] lin[i].value_spec() matches Some(e)
                            && e.key@ == key && accepted.contains(e.value_type)) by {
                            if i > 0 {
                                assert(lin[i] == plin[i - 1]);
                            }
                        }
                    }
                },
                None => {
                    assert(lin.len() == 1);
                },
            }
        }
    }
}

} // verus!
