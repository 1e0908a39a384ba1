//! Epochs, barrier kinds and the `(prev, curr)` pair a barrier carries.
use vstd::prelude::*;

verus! {

/// Identity of a worker process.
pub type WorkerId = u32;

/// Identity of an actor running on a worker.
pub type ActorId = u32;

/// Identity of a fragment of a streaming job.
pub type FragmentId = u32;

/// Identity of a table (a streaming job is named by the id of its table).
pub type TableId = u32;

/// Identity of a database.
pub type DatabaseId = u32;

/// An epoch keeps its physical time in the bits above this many low bits.
pub const EPOCH_PHYSICAL_SHIFT_BITS: u64 = 16;

/// One tick of physical time, as an epoch value.
pub const EPOCH_PHYSICAL_UNIT: u64 = 65536;

/// The largest physical time that an epoch can hold.
pub const MAX_PHYSICAL_TIME: u64 = 0xFFFF_FFFF_FFFF;

/// The epoch whose physical time is `t` and whose low bits are zero.
pub open spec fn epoch_at(t: nat) -> nat {
    t * 65536
}

/// The epoch of physical time `t`.
pub fn from_physical_time(t: u64) -> (e: u64)
    requires
        t <= MAX_PHYSICAL_TIME,
    ensures
        e == epoch_at(t as nat),
{
    t * EPOCH_PHYSICAL_UNIT
}

/// The physical time held by epoch `e`.
pub fn physical_time(e: u64) -> (t: u64)
    ensures
        t == e / 65536,
        t <= MAX_PHYSICAL_TIME,
{
    e / EPOCH_PHYSICAL_UNIT
}

/// What a barrier asks of the workers.
pub enum BarrierKind {
    /// The first barrier after a (re)connect: no earlier state is assumed.
    Initial,
    /// An ordinary, non-durable cut.
    Barrier,
    /// A durable cut, with the preceding non-checkpoint epochs that it subsumes.
    Checkpoint(Vec<u64>),
}

/// The mathematical value of a [`BarrierKind`].
pub enum BarrierKindView {
    Initial,
    Barrier,
    Checkpoint(Seq<u64>),
}

impl View for BarrierKind {
    type V = BarrierKindView;

    open spec fn view(&self) -> BarrierKindView {
        match self {
            BarrierKind::Initial => BarrierKindView::Initial,
            BarrierKind::Barrier => BarrierKindView::Barrier,
            BarrierKind::Checkpoint(v) => BarrierKindView::Checkpoint(v@),
        }
    }
}

impl BarrierKindView {
    pub open spec fn is_checkpoint(self) -> bool {
        self is Checkpoint
    }
}

pub fn copy_epochs(v: &Vec<u64>) -> (r: Vec<u64>)
    ensures
        r@ == v@,
{
    let mut r: Vec<u64> = Vec::new();
    let mut i: usize = 0;
    while i < v.len()
        invariant
            i <= v@.len(),
            r@ == v@.subrange(0, i as int),
        decreases v@.len() - i,
    {
        r.push(v[i]);
        i = i + 1;
        assert(r@ =~= v@.subrange(0, i as int));
    }
    assert(r@ =~= v@);
    r
}

pub fn copy_ids(v: &Vec<u32>) -> (r: Vec<u32>)
    ensures
        r@ == v@,
{
    let mut r: Vec<u32> = Vec::new();
    let mut i: usize = 0;
    while i < v.len()
        invariant
            i <= v@.len(),
            r@ == v@.subrange(0, i as int),
        decreases v@.len() - i,
    {
        r.push(v[i]);
        i = i + 1;
        assert(r@ =~= v@.subrange(0, i as int));
    }
    assert(r@ =~= v@);
    r
}

impl BarrierKind {
    pub fn is_checkpoint(&self) -> (r: bool)
        ensures
            r == self@.is_checkpoint(),
    {
        match self {
            BarrierKind::Checkpoint(_) => true,
            _ => false,
        }
    }

    pub fn duplicate(&self) -> (r: BarrierKind)
        ensures
            r@ == self@,
    {
        match self {
            BarrierKind::Initial => BarrierKind::Initial,
            BarrierKind::Barrier => BarrierKind::Barrier,
            BarrierKind::Checkpoint(v) => BarrierKind::Checkpoint(copy_epochs(v)),
        }
    }
}

/// The epoch pair and kind of one barrier.
pub struct BarrierInfo {
    pub prev_epoch: u64,
    pub curr_epoch: u64,
    pub kind: BarrierKind,
}

/// The mathematical value of a [`BarrierInfo`].
pub struct BarrierInfoView {
    pub prev_epoch: u64,
    pub curr_epoch: u64,
    pub kind: BarrierKindView,
}

impl View for BarrierInfo {
    type V = BarrierInfoView;

    open spec fn view(&self) -> BarrierInfoView {
        BarrierInfoView { prev_epoch: self.prev_epoch, curr_epoch: self.curr_epoch, kind: self.kind@ }
    }
}

impl BarrierInfo {
    pub fn prev_epoch(&self) -> (r: u64)
        ensures
            r == self.prev_epoch,
    {
        self.prev_epoch
    }

    pub fn duplicate(&self) -> (r: BarrierInfo)
        ensures
            r@ == self@,
    {
        BarrierInfo {
            prev_epoch: self.prev_epoch,
            curr_epoch: self.curr_epoch,
            kind: self.kind.duplicate(),
        }
    }
}

/// Views of a sequence of barriers.
pub open spec fn barrier_views(s: Seq<BarrierInfo>) -> Seq<BarrierInfoView> {
    s.map_values(|b: BarrierInfo| b@)
}

/// The barriers form one chain: each starts where the one before it ended, and each
/// moves time forward.
pub open spec fn is_epoch_chain(s: Seq<BarrierInfoView>) -> bool {
    &&& forall|i: int| 0 <= i < s.len() ==> #[trigger] s[i].prev_epoch < s[i].curr_epoch
    &&& forall|i: int| 0 < i < s.len() ==> #[trigger] s[i].prev_epoch == s[i - 1].curr_epoch
}

} // verus!
