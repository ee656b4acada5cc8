//! Points in batches: how many are written at a time.
use crate::points::PointStruct;
use vstd::prelude::*;

verus! {

/// The number of points at which a batch is full; a batch has at least one.
pub open spec fn full_size(batch_size: usize) -> nat {
    if batch_size == 0 {
        1
    } else {
        batch_size as nat
    }
}

/// What a batch gives out when a point is added to the points that wait in it: all of them, where
/// there are enough.
pub open spec fn given_at(waiting: Seq<PointStruct>, batch_size: usize) -> Option<
    Seq<PointStruct>,
> {
    if waiting.len() >= batch_size {
        Some(waiting)
    } else {
        None
    }
}

/// What a batch gives out at the end: the points that wait in it, where there are any.
pub open spec fn given_at_end(waiting: Seq<PointStruct>) -> Option<Seq<PointStruct>> {
    if waiting.len() > 0 {
        Some(waiting)
    } else {
        None
    }
}

/// The points of a batch that may be missing.
pub open spec fn option_points(batch: Option<Vec<PointStruct>>) -> Option<Seq<PointStruct>> {
    match batch {
        Some(points) => Some(points@),
        None => None,
    }
}

/// Points that have come in, as those that wait for their batch to fill and the batches that were
/// given out, the earliest first.
pub ghost struct Batching {
    pub given: Seq<Seq<PointStruct>>,
    pub waiting: Seq<PointStruct>,
}

impl Batching {
    /// Nothing has come in.
    pub open spec fn start() -> Batching {
        Batching { given: Seq::empty(), waiting: Seq::empty() }
    }

    /// One more point has come in.
    pub open spec fn after(self, batch_size: usize, point: PointStruct) -> Batching {
        let waiting = self.waiting.push(point);
        match given_at(waiting, batch_size) {
            Some(batch) => Batching { given: self.given.push(batch), waiting: Seq::empty() },
            None => Batching { waiting, ..self },
        }
    }

    /// No more points will come in.
    pub open spec fn finished(self) -> Batching {
        match given_at_end(self.waiting) {
            Some(batch) => Batching { given: self.given.push(batch), waiting: Seq::empty() },
            None => self,
        }
    }
}

/// The batches that were given out, with one more where there is one.
pub open spec fn with_batch(
    given: Seq<Seq<PointStruct>>,
    batch: Option<Vec<PointStruct>>,
) -> Seq<Seq<PointStruct>> {
    match batch {
        Some(points) => given.push(points@),
        None => given,
    }
}

/// A batch that is being filled, and the number of points that were written before it.
#[derive(Debug, PartialEq)]
pub struct Batch {
    pub points: Vec<PointStruct>,
    pub batch_size: usize,
    pub total: u64,
}

impl Batch {
    /// How points have come out so far, where these are the batches that were given out.
    pub open spec fn batching(self, given: Seq<Seq<PointStruct>>) -> Batching {
        Batching { given, waiting: self.points@ }
    }

    /// An empty batch, with nothing written before it.
    pub fn start(batch_size: usize) -> (b: Batch)
        ensures
            b.batching(Seq::empty()) == Batching::start(),
            b.points@.len() == 0,
            b.batch_size == batch_size,
            b.total == 0,
    {
        Batch { points: Vec::new(), batch_size, total: 0 }
    }

    /// Adds a point, and gives the batch out where it is full.
    pub fn push(&mut self, point: PointStruct) -> (r: Option<Vec<PointStruct>>)
        ensures
            option_points(r) == given_at(old(self).points@.push(point), old(self).batch_size),
            final(self).points@ == (if r is Some {
                Seq::empty()
            } else {
                old(self).points@.push(point)
            }),
            match r {
                Some(batch) => {
                    &&& old(self).points@.len() + 1 >= old(self).batch_size
                    &&& batch@ == old(self).points@.push(point)
                    &&& final(self).points@.len() == 0
                },
                None => {
                    &&& old(self).points@.len() + 1 < old(self).batch_size
                    &&& final(self).points@ == old(self).points@.push(point)
                },
            },
            forall|given: Seq<Seq<PointStruct>>| #[trigger]
                old(self).batching(given).after(old(self).batch_size, point)
                    == final(self).batching(with_batch(given, r)),
            final(self).batch_size == old(self).batch_size,
            final(self).total == old(self).total,
    {
        self.points.push(point);
        if self.points.len() >= self.batch_size {
            let mut batch: Vec<PointStruct> = Vec::new();
            std::mem::swap(&mut batch, &mut self.points);
            Some(batch)
        } else {
            None
        }
    }

    /// Gives out what is left in the batch, where something is.
    pub fn finish(&mut self) -> (r: Option<Vec<PointStruct>>)
        ensures
            final(self).points@.len() == 0,
            option_points(r) == given_at_end(old(self).points@),
            match r {
                Some(batch) => batch@ == old(self).points@ && batch@.len() > 0,
                None => old(self).points@.len() == 0,
            },
            forall|given: Seq<Seq<PointStruct>>| #[trigger]
                old(self).batching(given).finished() == final(self).batching(
                    with_batch(given, r),
                ),
            final(self).batch_size == old(self).batch_size,
            final(self).total == old(self).total,
    {
        if self.points.len() > 0 {
            let mut batch: Vec<PointStruct> = Vec::new();
            std::mem::swap(&mut batch, &mut self.points);
            Some(batch)
        } else {
            None
        }
    }

    /// Takes note of a batch that was written.
    pub fn written(&mut self, count: usize)
        requires
            old(self).total + count <= u64::MAX,
        ensures
            final(self).total == old(self).total + count,
            final(self).points == old(self).points,
            final(self).batch_size == old(self).batch_size,
    {
        self.total = self.total + count as u64;
    }
}

/// How points come out in batches when they have come in one by one.
pub open spec fn batching(batch_size: usize, points: Seq<PointStruct>) -> Batching
    decreases points.len(),
{
    if points.len() == 0 {
        Batching::start()
    } else {
        batching(batch_size, points.drop_last()).after(batch_size, points.last())
    }
}

/// The number of points in some batches.
pub open spec fn points_in(batches: Seq<Seq<PointStruct>>) -> nat
    decreases batches.len(),
{
    if batches.len() == 0 {
        0
    } else {
        points_in(batches.drop_last()) + batches.last().len()
    }
}

/// Batches hold as many points as there are one after another.
proof fn lemma_points_in(batches: Seq<Seq<PointStruct>>)
    ensures
        points_in(batches) == batches.flatten().len(),
    decreases batches.len(),
{
    if batches.len() > 0 {
        lemma_points_in(batches.drop_last());
        batches.drop_last().lemma_flatten_push(batches.last());
        assert(batches =~= batches.drop_last().push(batches.last()));
    }
}

/// While points come in, each has been given out in a batch or waits, in the order in which they
/// came; each batch that was given out is full; and the one that waits is not.
pub proof fn law_batching(batch_size: usize, points: Seq<PointStruct>)
    ensures
        ({
            let b = batching(batch_size, points);
            &&& b.given.flatten() + b.waiting == points
            &&& forall|i: int|
                0 <= i < b.given.len() ==> (#[trigger] b.given[i]).len() == (if batch_size == 0 {
                    1int
                } else {
                    batch_size as int
                })
            &&& b.waiting.len() < (if batch_size == 0 {
                1int
            } else {
                batch_size as int
            })
            &&& full_size(batch_size) == (if batch_size == 0 {
                1int
            } else {
                batch_size as int
            })
        }),
    decreases points.len(),
{
    let b = batching(batch_size, points);
    if points.len() == 0 {
        assert(b.given.flatten() + b.waiting =~= points);
    } else {
        let before = points.drop_last();
        let a = batching(batch_size, before);
        law_batching(batch_size, before);
        let waiting = a.waiting.push(points.last());
        assert(points =~= before.push(points.last()));
        if waiting.len() >= batch_size {
            a.given.lemma_flatten_push(waiting);
            assert(b.given.flatten() + b.waiting =~= points);
        } else {
            assert(b.given.flatten() + b.waiting =~= points);
        }
    }
}

/// When no more points come in, the batches that were given out hold each point once, in the order
/// in which they came; all but the last are full; none is empty; and together they hold as many
/// points as came in.
pub proof fn law_batches(batch_size: usize, points: Seq<PointStruct>)
    ensures
        ({
            let given = batching(batch_size, points).finished().given;
            &&& given.flatten() == points
            &&& forall|i: int|
                0 <= i < given.len() - 1 ==> (#[trigger] given[i]).len() == full_size(batch_size)
            &&& forall|i: int|
                0 <= i < given.len() ==> 0 < (#[trigger] given[i]).len() <= full_size(batch_size)
            &&& points_in(given) == points.len()
        }),
{
    law_batching(batch_size, points);
    let b = batching(batch_size, points);
    if b.waiting.len() > 0 {
        b.given.lemma_flatten_push(b.waiting);
    }
    assert(b.finished().given.flatten() =~= points);
    lemma_points_in(b.finished().given);
}

} // verus!
