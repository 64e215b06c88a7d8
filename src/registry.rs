//! Handle-keyed storage of drawable entries.
use vstd::multiset::Multiset;
use vstd::prelude::*;

verus! {

/// Opaque, unforgeable identifier of a registered entry.
///
/// Identifiers come from a counter that is incremented before each issue, so
/// `0` is never handed out and no identifier is issued twice.
#[derive(Debug, Clone, Copy, PartialEq, Eq, Hash, Structural)]
pub struct Handle {
    id: u32,
}

impl View for Handle {
    type V = u32;

    closed spec fn view(&self) -> u32 {
        self.id
    }
}

/// Primitive topology class of an entry, fixed when the entry is added.
#[derive(Debug, Clone, Copy, PartialEq, Eq, Structural)]
pub enum Kind {
    Point,
    Line,
    Mesh,
}

/// The primitive topology that a pipeline assembles vertices into.
#[derive(Debug, Clone, Copy, PartialEq, Eq, Structural)]
pub enum Topology {
    PointList,
    LineList,
    TriangleList,
}

impl Kind {
    /// The topology of the pipeline that draws entries of this kind.
    pub fn topology(&self) -> (r: Topology)
        ensures
            r == (match *self {
                Kind::Point => Topology::PointList,
                Kind::Line => Topology::LineList,
                Kind::Mesh => Topology::TriangleList,
            }),
    {
        match self {
            Kind::Point => Topology::PointList,
            Kind::Line => Topology::LineList,
            Kind::Mesh => Topology::TriangleList,
        }
    }

    /// Whether the pipeline of this kind culls back faces: only meshes do.
    pub fn culls_back(&self) -> (r: bool)
        ensures
            r == (*self == Kind::Mesh),
    {
        match self {
            Kind::Mesh => true,
            _ => false,
        }
    }
}

/// The error of a lookup through a handle that names no live entry.
#[derive(Debug, Clone, Copy, PartialEq, Eq, Structural)]
pub struct UnknownHandle;


/// A live entry: the identifier of its handle, its kind and its payload.
struct Slot<E> {
    id: u32,
    kind: Kind,
    item: E,
}

/// Identifiers of `s` strictly increase along it, so none occurs twice.
pub open spec fn ids_ascending<E>(s: Seq<(u32, Kind, E)>) -> bool {
    forall|i: int, j: int| 0 <= i < j < s.len() ==> s[i].0 < s[j].0
}

/// Some entry of `s` has identifier `id`.
pub open spec fn holds<E>(s: Seq<(u32, Kind, E)>, id: u32) -> bool {
    exists|i: int| 0 <= i < s.len() && s[i].0 == id
}

/// Holds of the entries whose identifier is not `id`.
pub open spec fn other_than<E>(id: u32) -> spec_fn((u32, Kind, E)) -> bool {
    |e: (u32, Kind, E)| e.0 != id
}

/// `s` with the entry of identifier `id` taken out, if there is one.
pub open spec fn without<E>(s: Seq<(u32, Kind, E)>, id: u32) -> Seq<(u32, Kind, E)> {
    s.filter(other_than(id))
}

/// Maps each storage slot to its model: identifier, kind and payload.
spec fn slot_model<E>(s: Slot<E>) -> (u32, Kind, E) {
    (s.id, s.kind, s.item)
}

/// Owns the live entries, each under the handle it was added with.
///
/// Entries are stored in the order they were added, which is also the order of
/// increasing handles; that order is the draw order of a frame.
pub struct Registry<E> {
    last_id: u32,
    slots: Vec<Slot<E>>,
}

impl<E> Registry<E> {
    /// The live entries, in draw order: identifier, kind and payload.
    pub closed spec fn live(&self) -> Seq<(u32, Kind, E)> {
        self.slots@.map_values(|s: Slot<E>| slot_model(s))
    }

    /// The last identifier issued, or `0` when none has been.
    pub closed spec fn issued(&self) -> u32 {
        self.last_id
    }

    /// Every live identifier was issued, is nonzero, and occurs once.
    pub open spec fn wf(&self) -> bool {
        &&& ids_ascending(self.live())
        &&& forall|i: int|
            0 <= i < self.live().len() ==> 1 <= #[trigger] self.live()[i].0 <= self.issued()
    }

    /// An empty registry that has issued no handle.
    pub fn new() -> (r: Self)
        ensures
            r.wf(),
            r.live() == Seq::<(u32, Kind, E)>::empty(),
            r.issued() == 0,
    {
        let r = Registry { last_id: 0, slots: Vec::new() };
        assert(r.live() =~= Seq::<(u32, Kind, E)>::empty());
        r
    }

    /// Whether one more handle can be issued.
    pub fn can_add(&self) -> (r: bool)
        ensures
            r == (self.issued() < u32::MAX),
    {
        self.last_id < u32::MAX
    }

    /// Adds an entry of the given kind under a fresh handle, which it returns.
    ///
    /// The handle is greater than every handle issued before, so it names no
    /// entry that lived before the call.
    pub fn add(&mut self, kind: Kind, item: E) -> (h: Handle)
        requires
            old(self).wf(),
            old(self).issued() < u32::MAX,
        ensures
            final(self).wf(),
            h@ == old(self).issued() + 1,
            final(self).issued() == h@,
            !holds(old(self).live(), h@),
            holds(final(self).live(), h@),
            final(self).live() == old(self).live().push((h@, kind, item)),
    {
        self.last_id = self.last_id + 1;
        let id = self.last_id;
        self.slots.push(Slot { id, kind, item });
        assert(self.live() =~= old(self).live().push((id, kind, item)));
        assert(self.live()[old(self).live().len() as int].0 == id);
        Handle { id }
    }

    /// The number of live entries.
    pub fn len(&self) -> (r: usize)
        ensures
            r == self.live().len(),
    {
        self.slots.len()
    }

    /// The position in draw order of the entry that `h` names.
    pub fn position(&self, h: &Handle) -> (r: Result<usize, UnknownHandle>)
        requires
            self.wf(),
        ensures
            r is Ok <==> holds(self.live(), h@),
            r matches Ok(i) ==> i < self.live().len() && self.live()[i as int].0 == h@,
    {
        let mut i: usize = 0;
        while i < self.slots.len()
            invariant
                0 <= i <= self.slots.len(),
                self.live().len() == self.slots@.len(),
                forall|j: int| 0 <= j < i ==> self.live()[j].0 != h@,
            decreases self.slots.len() - i,
        {
            assert(self.live()[i as int] == slot_model(self.slots@[i as int]));
            if self.slots[i].id == h.id {
                return Ok(i);
            }
            i = i + 1;
        }
        Err(UnknownHandle)
    }

    /// The kind of the entry at position `i` of the draw order.
    pub fn kind_at(&self, i: usize) -> (r: Kind)
        requires
            i < self.live().len(),
        ensures
            r == self.live()[i as int].1,
    {
        self.slots[i].kind
    }

    /// The payload of the entry at position `i` of the draw order.
    pub fn item_at(&self, i: usize) -> (r: &E)
        requires
            i < self.live().len(),
        ensures
            *r == self.live()[i as int].2,
    {
        &self.slots[i].item
    }

    /// Exclusive access to the payload at position `i` of the draw order; its
    /// identifier and kind stay as they are.
    pub fn item_at_mut(&mut self, i: usize) -> (r: &mut E)
        requires
            i < old(self).live().len(),
        ensures
            *r == old(self).live()[i as int].2,
            final(self).issued() == old(self).issued(),
            final(self).live() == old(self).live().update(
                i as int,
                (old(self).live()[i as int].0, old(self).live()[i as int].1, *final(r)),
            ),
    {
        &mut self.slots[i].item
    }
}

impl<E> Registry<E> {
    /// The kind and payload of the entry that `h` names.
    pub fn get(&self, h: &Handle) -> (r: Result<(Kind, &E), UnknownHandle>)
        requires
            self.wf(),
        ensures
            r is Ok <==> holds(self.live(), h@),
            r matches Ok((k, e)) ==> exists|i: int|
                0 <= i < self.live().len() && self.live()[i] == (h@, k, *e),
    {
        match self.position(h) {
            Ok(i) => Ok((self.slots[i].kind, &self.slots[i].item)),
            Err(e) => Err(e),
        }
    }

    /// Runs `f` on the payload that `h` names and returns what it returns; an
    /// unknown handle leaves the registry as it is.
    pub fn with<T, F: FnOnce(&mut E) -> T>(&mut self, h: &Handle, f: F) -> (r: Result<T, UnknownHandle>)
        requires
            old(self).wf(),
            forall|e: &mut E| #[trigger] f.requires((e,)),
        ensures
            final(self).wf(),
            final(self).issued() == old(self).issued(),
            r is Err <==> !holds(old(self).live(), h@),
            r is Err ==> final(self).live() == old(self).live(),
            r matches Ok(t) ==> exists|i: int, e: &mut E| {
                &&& 0 <= i < old(self).live().len()
                &&& old(self).live()[i].0 == h@
                &&& *e == old(self).live()[i].2
                &&& f.ensures((e,), t)
                &&& final(self).live() == old(self).live().update(
                    i,
                    (h@, old(self).live()[i].1, *final(e)),
                )
            },
    {
        match self.position(h) {
            Ok(i) => {
                let e = self.item_at_mut(i);
                let t = f(e);
                assert(final(self).wf()) by {
                    assert(self.live()[i as int].0 == old(self).live()[i as int].0);
                }
                Ok(t)
            },
            Err(u) => Err(u),
        }
    }

    /// Takes out the entry that `h` names, and drops it; does nothing when no
    /// live entry has that handle.
    pub fn remove(&mut self, h: Handle)
        requires
            old(self).wf(),
        ensures
            final(self).wf(),
            final(self).issued() == old(self).issued(),
            final(self).live() == without(old(self).live(), h@),
    {
        match self.position(&h) {
            Ok(i) => {
                proof {
                    lemma_without_at(self.live(), i as int);
                }
                self.slots.remove(i);
                assert(self.live() =~= old(self).live().remove(i as int));
            },
            Err(_) => {
                proof {
                    lemma_without_absent(self.live(), h@);
                }
            },
        }
    }
}

/// What a frame submits for the entries of `s`: one draw of each payload with
/// the pipeline of its kind, as a multiset since draws do not depend on order.
pub open spec fn submissions<E>(s: Seq<(u32, Kind, E)>) -> Multiset<(Kind, E)> {
    s.map_values(|e: (u32, Kind, E)| (e.1, e.2)).to_multiset()
}

/// A handle issued by `add` is greater than every handle issued before and
/// names no entry that lived before; right after, a lookup through it succeeds
/// and finds exactly the kind and payload added.
pub proof fn law_add_then_lookup<E>(r: Registry<E>, kind: Kind, item: E)
    requires
        r.wf(),
        r.issued() < u32::MAX,
    ensures
        ({
            let id = (r.issued() + 1) as u32;
            let after = r.live().push((id, kind, item));
            &&& id > r.issued()
            &&& !holds(r.live(), id)
            &&& holds(after, id)
            &&& ids_ascending(after)
            &&& forall|i: int|
                0 <= i < after.len() && (#[trigger] after[i]).0 == id ==> after[i] == (id, kind, item)
        }),
{
    let id = (r.issued() + 1) as u32;
    let s = r.live();
    let after = s.push((id, kind, item));
    if holds(s, id) {
        let i = choose|i: int| 0 <= i < s.len() && s[i].0 == id;
        assert(s[i].0 <= r.issued());
    }
    assert(after[s.len() as int].0 == id);
    assert forall|i: int| 0 <= i < s.len() implies #[trigger] after[i].0 < id by {
        assert(after[i] == s[i]);
        assert(s[i].0 <= r.issued());
    }
}

/// Removing is idempotent: removing a handle again, or one never issued,
/// changes nothing, and a removal touches no entry of another handle.
pub proof fn law_remove_idempotent<E>(s: Seq<(u32, Kind, E)>, id: u32)
    ensures
        without(without(s, id), id) == without(s, id),
        !holds(s, id) ==> without(s, id) == s,
        forall|e: (u32, Kind, E)|
            e.0 != id ==> (#[trigger] without(s, id).contains(e) <==> s.contains(e)),
{
    broadcast use Seq::lemma_filter_pred, Seq::lemma_filter_contains_rev;
    let w = without(s, id);
    assert forall|i: int| 0 <= i < w.len() implies (other_than(id))(#[trigger] w[i]) by {
        s.lemma_filter_pred(other_than(id), i);
    }
    lemma_filter_keeps_all(w, other_than(id));
    if !holds(s, id) {
        lemma_without_absent(s, id);
    }
    assert forall|e: (u32, Kind, E)| e.0 != id implies (#[trigger] w.contains(e) <==> s.contains(
        e,
    )) by {
        if s.contains(e) {
            let i = choose|i: int| 0 <= i < s.len() && s[i] == e;
            s.lemma_filter_contains(other_than(id), i);
        }
        if w.contains(e) {
            s.lemma_filter_contains_rev(other_than(id), e);
        }
    }
}

/// After a handle is removed no entry has it, so every lookup through it
/// reports an unknown handle.
pub proof fn law_removed_is_unknown<E>(s: Seq<(u32, Kind, E)>, id: u32)
    ensures
        !holds(without(s, id), id),
{
    let w = without(s, id);
    if holds(w, id) {
        let i = choose|i: int| 0 <= i < w.len() && w[i].0 == id;
        s.lemma_filter_pred(other_than(id), i);
    }
}

/// Registering two entries in either order submits the same draws, whatever
/// handles they get.
pub proof fn law_draw_order_independent<E>(
    s: Seq<(u32, Kind, E)>,
    first_a: u32,
    then_b: u32,
    first_b: u32,
    then_a: u32,
    ka: Kind,
    a: E,
    kb: Kind,
    b: E,
)
    ensures
        submissions(s.push((first_a, ka, a)).push((then_b, kb, b))) == submissions(
            s.push((first_b, kb, b)).push((then_a, ka, a)),
        ),
{
    let f = |e: (u32, Kind, E)| (e.1, e.2);
    let m = s.map_values(f);
    assert(s.push((first_a, ka, a)).push((then_b, kb, b)).map_values(f) =~= m.push((ka, a)).push(
        (kb, b),
    ));
    assert(s.push((first_b, kb, b)).push((then_a, ka, a)).map_values(f) =~= m.push((kb, b)).push(
        (ka, a),
    ));
    m.to_multiset_ensures();
    m.push((ka, a)).to_multiset_ensures();
    m.push((kb, b)).to_multiset_ensures();
    assert(m.to_multiset().insert((ka, a)).insert((kb, b)) =~= m.to_multiset().insert(
        (kb, b),
    ).insert((ka, a)));
    assert(m.push((ka, a)).push((kb, b)).to_multiset() =~= m.push((kb, b)).push(
        (ka, a),
    ).to_multiset());
}

/// Filtering by a predicate that every element meets keeps the sequence.
proof fn lemma_filter_keeps_all<A>(s: Seq<A>, p: spec_fn(A) -> bool)
    requires
        forall|i: int| 0 <= i < s.len() ==> p(#[trigger] s[i]),
    ensures
        s.filter(p) == s,
    decreases s.len(),
{
    reveal(Seq::filter);
    if s.len() > 0 {
        lemma_filter_keeps_all(s.drop_last(), p);
        assert(s.drop_last().push(s.last()) =~= s);
    }
}

/// Taking out an identifier that no entry has leaves the entries as they are.
proof fn lemma_without_absent<E>(s: Seq<(u32, Kind, E)>, id: u32)
    requires
        !holds(s, id),
    ensures
        without(s, id) == s,
{
    assert forall|i: int| 0 <= i < s.len() implies (other_than(id))(#[trigger] s[i]) by {
        if s[i].0 == id {
            assert(holds(s, id));
        }
    }
    lemma_filter_keeps_all(s, other_than(id));
}

/// With identifiers unique, taking out the identifier found at `i` removes
/// exactly position `i`.
proof fn lemma_without_at<E>(s: Seq<(u32, Kind, E)>, i: int)
    requires
        ids_ascending(s),
        0 <= i < s.len(),
    ensures
        without(s, s[i].0) == s.remove(i),
{
    let id = s[i].0;
    let p = other_than::<E>(id);
    let front = s.take(i);
    let back = s.skip(i + 1);
    assert(s =~= front + (seq![s[i]] + back));
    broadcast use Seq::filter_distributes_over_add;
    assert forall|j: int| 0 <= j < front.len() implies p(#[trigger] front[j]) by {
        assert(front[j] == s[j]);
    }
    assert forall|j: int| 0 <= j < back.len() implies p(#[trigger] back[j]) by {
        assert(back[j] == s[i + 1 + j]);
    }
    lemma_filter_keeps_all(front, p);
    lemma_filter_keeps_all(back, p);
    reveal_with_fuel(Seq::filter, 2);
    assert(seq![s[i]].drop_last() =~= Seq::<(u32, Kind, E)>::empty());
    assert(seq![s[i]].filter(p) =~= Seq::<(u32, Kind, E)>::empty());
    assert(front + back =~= s.remove(i));
}

} // verus!
