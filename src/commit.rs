//! Committing the ratings: which file goes where, and the run that performs
//! the moves one by one and keeps one result per rated photo.

use crate::models::{photo_views, ImageInfo, PhotoView, Rating};
use crate::paths::{extension_set, path_joined, push, set_extension, RAW_EXTENSION};
use vstd::prelude::*;

verus! {

/// One file to move, as the proofs see it.
pub struct MoveView {
    pub from: Seq<char>,
    pub to: Seq<char>,
}

/// What happens to the raw sibling of a rated photo, as the proofs see it.
pub enum RawMoveView {
    Absent,
    Planned(MoveView),
    NoDestination(Seq<char>),
}

/// The moves of one rated photo, as the proofs see them.
pub struct PhotoMoveView {
    pub processed: MoveView,
    pub raw: RawMoveView,
}

/// One file to move: from its current path to its destination.
#[derive(Clone, Debug)]
pub struct FileMove {
    pub from: String,
    pub to: String,
}

impl View for FileMove {
    type V = MoveView;

    open spec fn view(&self) -> MoveView {
        MoveView { from: self.from@, to: self.to@ }
    }
}

/// What happens to the raw sibling of a rated photo.
#[derive(Clone, Debug)]
pub enum RawMove {
    /// The photo has no raw sibling.
    Absent,
    /// The raw sibling moves next to the photo.
    Planned(FileMove),
    /// No destination with the raw extension can be formed for the raw
    /// sibling at this path: it is not moved, and the photo's result is a
    /// failure.
    NoDestination(String),
}

impl View for RawMove {
    type V = RawMoveView;

    open spec fn view(&self) -> RawMoveView {
        match self {
            RawMove::Absent => RawMoveView::Absent,
            RawMove::Planned(m) => RawMoveView::Planned(m@),
            RawMove::NoDestination(from) => RawMoveView::NoDestination(from@),
        }
    }
}

/// The moves that commit one rated photo: its processed file, then its raw
/// sibling if it has one.
#[derive(Clone, Debug)]
pub struct PhotoMove {
    pub processed: FileMove,
    pub raw: RawMove,
}

impl View for PhotoMove {
    type V = PhotoMoveView;

    open spec fn view(&self) -> PhotoMoveView {
        PhotoMoveView { processed: self.processed@, raw: self.raw@ }
    }
}

pub open spec fn move_views(moves: Seq<PhotoMove>) -> Seq<PhotoMoveView> {
    moves.map_values(|m: PhotoMove| m@)
}

/// Where the raw sibling of the photo named `name` goes in `dir`: the
/// photo's destination with the raw extension; none where that extension
/// cannot be set.
pub open spec fn raw_destination(dir: Seq<char>, name: Seq<char>) -> Option<Seq<char>> {
    extension_set(path_joined(dir, name), RAW_EXTENSION@)
}

/// The moves that put `photo` into `dir`, under its file name.
pub open spec fn planned_move(dir: Seq<char>, photo: PhotoView) -> PhotoMoveView {
    PhotoMoveView {
        processed: MoveView { from: photo.processed, to: path_joined(dir, photo.name) },
        raw: match photo.raw {
            Some(r) => match raw_destination(dir, photo.name) {
                Some(to) => RawMoveView::Planned(MoveView { from: r, to }),
                None => RawMoveView::NoDestination(r),
            },
            None => RawMoveView::Absent,
        },
    }
}

/// The moves of a commit, in catalog order: approved photos go to `wheat`,
/// removed ones to `chaffe`, unrated ones stay.
pub open spec fn commit_plan_of(photos: Seq<PhotoView>, chaffe: Seq<char>, wheat: Seq<char>) -> Seq<
    PhotoMoveView,
>
    decreases photos.len(),
{
    if photos.len() == 0 {
        Seq::empty()
    } else {
        let rest = commit_plan_of(photos.drop_last(), chaffe, wheat);
        let p = photos.last();
        match p.rating {
            Rating::Unrated => rest,
            Rating::Approve => rest.push(planned_move(wheat, p)),
            Rating::Remove => rest.push(planned_move(chaffe, p)),
        }
    }
}

/// The moves that put `image` into `destination_dir`: the processed file
/// under its name, and the raw sibling, if any, under the same name with the
/// raw extension. A raw sibling never takes the processed file's
/// destination.
pub fn move_image_into_dir(destination_dir: &str, image: &ImageInfo) -> (r: PhotoMove)
    ensures
        r@ == planned_move(destination_dir@, image@),
{
    let processed_destination = push(destination_dir, image.image_name.as_str());
    let processed = FileMove { from: image.path_processed.clone(), to: processed_destination };
    let raw = match &image.path_raw {
        Some(path_raw) => {
            let joined = push(destination_dir, image.image_name.as_str());
            proof {
                reveal_strlit("RAF");
            }
            match set_extension(joined.as_str(), RAW_EXTENSION) {
                Some(to) => RawMove::Planned(FileMove { from: path_raw.clone(), to }),
                None => RawMove::NoDestination(path_raw.clone()),
            }
        },
        None => RawMove::Absent,
    };
    PhotoMove { processed, raw }
}

/// Appends to `plan` the moves of `image`: into `wheat_dir` when approved,
/// into `chaffe_dir` when removed, none when unrated.
pub fn handle_image_cull(
    chaffe_dir: &str,
    wheat_dir: &str,
    plan: &mut Vec<PhotoMove>,
    image: &ImageInfo,
)
    ensures
        move_views(final(plan)@) == match image.rating {
            Rating::Unrated => move_views(old(plan)@),
            Rating::Approve => move_views(old(plan)@).push(planned_move(wheat_dir@, image@)),
            Rating::Remove => move_views(old(plan)@).push(planned_move(chaffe_dir@, image@)),
        },
{
    let ghost before = plan@;
    match image.rating {
        Rating::Unrated => {},
        Rating::Approve => {
            let m = move_image_into_dir(wheat_dir, image);
            plan.push(m);
            assert(move_views(plan@) =~= move_views(before).push(m@));
        },
        Rating::Remove => {
            let m = move_image_into_dir(chaffe_dir, image);
            plan.push(m);
            assert(move_views(plan@) =~= move_views(before).push(m@));
        },
    }
}

/// The moves that commit a catalog, one entry per rated photo, in catalog
/// order.
pub fn plan_commit(photos: &[ImageInfo], chaffe_dir: &str, wheat_dir: &str) -> (r: Vec<PhotoMove>)
    ensures
        move_views(r@) == commit_plan_of(photo_views(photos@), chaffe_dir@, wheat_dir@),
{
    let mut plan: Vec<PhotoMove> = Vec::new();
    let mut i: usize = 0;
    while i < photos.len()
        invariant
            i <= photos@.len(),
            move_views(plan@) == commit_plan_of(
                photo_views(photos@.subrange(0, i as int)),
                chaffe_dir@,
                wheat_dir@,
            ),
        decreases photos@.len() - i,
    {
        let ghost prefix = photo_views(photos@.subrange(0, i as int + 1));
        assert(prefix.drop_last() =~= photo_views(photos@.subrange(0, i as int)));
        assert(prefix.last() == photos@[i as int]@);
        handle_image_cull(chaffe_dir, wheat_dir, &mut plan, &photos[i]);
        i = i + 1;
    }
    assert(photos@.subrange(0, i as int) =~= photos@);
    plan
}

/// A catalog in which no photo is approved or removed gives an empty commit
/// plan: committing it moves no file.
pub proof fn lemma_nothing_rated_nothing_moved(
    photos: Seq<PhotoView>,
    chaffe: Seq<char>,
    wheat: Seq<char>,
)
    requires
        forall|k: int| 0 <= k < photos.len() ==> (#[trigger] photos[k]).rating == Rating::Unrated,
    ensures
        commit_plan_of(photos, chaffe, wheat).len() == 0,
    decreases photos.len(),
{
    if photos.len() > 0 {
        let init = photos.drop_last();
        assert forall|k: int| 0 <= k < init.len() implies (#[trigger] init[k]).rating
            == Rating::Unrated by {
            assert(init[k] == photos[k]);
        }
        lemma_nothing_rated_nothing_moved(init, chaffe, wheat);
        assert(photos[photos.len() - 1] == photos.last());
    }
}

/// Which move of a rated photo failed. A failed processed move leaves the
/// raw sibling where it is; a failed raw move comes after the processed file
/// was moved, which stays moved. A raw sibling with no destination counts
/// as a failed raw move.
#[derive(Clone, Copy, Debug, PartialEq, Eq, Structural)]
pub enum MoveFailure {
    /// The processed file could not be moved.
    Processed,
    /// The processed file was moved; its raw sibling could not be.
    Raw,
}

/// Where a commit run stands, as the proofs see it: the photo of the plan
/// whose moves come next, whether its raw move is next, and the results so
/// far.
pub struct RunView {
    pub photo: int,
    pub raw_pending: bool,
    pub results: Seq<Result<(), MoveFailure>>,
}

/// The rename that a run asks for next; none once it is finished.
pub open spec fn rename_asked(plan: Seq<PhotoMoveView>, s: RunView) -> Option<MoveView> {
    if s.photo < 0 || s.photo >= plan.len() {
        None
    } else if s.raw_pending {
        match plan[s.photo].raw {
            RawMoveView::Planned(m) => Some(m),
            _ => None,
        }
    } else {
        Some(plan[s.photo].processed)
    }
}

/// Where a run stands after the rename it asked for succeeded or failed.
pub open spec fn run_step(plan: Seq<PhotoMoveView>, s: RunView, succeeded: bool) -> RunView {
    if s.photo < 0 || s.photo >= plan.len() {
        s
    } else if s.raw_pending {
        RunView {
            photo: s.photo + 1,
            raw_pending: false,
            results: s.results.push(
                if succeeded {
                    Ok(())
                } else {
                    Err(MoveFailure::Raw)
                },
            ),
        }
    } else if !succeeded {
        RunView {
            photo: s.photo + 1,
            raw_pending: false,
            results: s.results.push(Err(MoveFailure::Processed)),
        }
    } else {
        match plan[s.photo].raw {
            RawMoveView::Planned(_) => RunView { photo: s.photo, raw_pending: true, results: s.results },
            RawMoveView::Absent => RunView {
                photo: s.photo + 1,
                raw_pending: false,
                results: s.results.push(Ok(())),
            },
            RawMoveView::NoDestination(_) => RunView {
                photo: s.photo + 1,
                raw_pending: false,
                results: s.results.push(Err(MoveFailure::Raw)),
            },
        }
    }
}

/// When a commit run comes to a photo with a raw sibling whose file is
/// missing, the move of the processed file is asked for first and, once it
/// succeeded, stays done: the raw move is asked for next, and its failure
/// ends the photo with one result, a raw-move failure, before the run goes
/// on to the next photo.
pub proof fn lemma_missing_raw_fails_only_raw(plan: Seq<PhotoMoveView>, s: RunView)
    requires
        0 <= s.photo < plan.len(),
        !s.raw_pending,
        plan[s.photo].raw is Planned,
    ensures
        rename_asked(plan, s) == Some(plan[s.photo].processed),
        rename_asked(plan, run_step(plan, s, true)) == Some(plan[s.photo].raw->Planned_0),
        run_step(plan, run_step(plan, s, true), false) == (RunView {
            photo: s.photo + 1,
            raw_pending: false,
            results: s.results.push(Err(MoveFailure::Raw)),
        }),
{
}

/// What the caller of a commit run does next.
#[derive(Clone, Debug)]
pub enum CommitStep {
    /// Rename the file at `from` to `to`, then report whether it worked.
    Rename { from: String, to: String },
    /// Every rated photo has its result.
    Finished,
}

/// A commit in progress: the plan, the photo whose moves come next, whether
/// its processed file was moved and its raw sibling is next, and one result
/// for each photo already handled. Every photo is attempted, whatever came
/// of the ones before.
pub struct CommitRun {
    pub plan: Vec<PhotoMove>,
    pub photo: usize,
    pub raw_pending: bool,
    pub results: Vec<Result<(), MoveFailure>>,
}

impl CommitRun {
    pub open spec fn run_view(&self) -> RunView {
        RunView {
            photo: self.photo as int,
            raw_pending: self.raw_pending,
            results: self.results@,
        }
    }

    pub open spec fn wf(&self) -> bool {
        &&& self.photo <= self.plan@.len()
        &&& self.results@.len() == self.photo
        &&& self.raw_pending ==> self.photo < self.plan@.len()
            && self.plan@[self.photo as int].raw is Planned
    }

    /// A run that has handled no photo yet.
    pub fn new(plan: Vec<PhotoMove>) -> (r: CommitRun)
        ensures
            r.wf(),
            r.plan@ == plan@,
            r.photo == 0,
            !r.raw_pending,
            r.results@.len() == 0,
    {
        CommitRun { plan, photo: 0, raw_pending: false, results: Vec::new() }
    }

    /// Whether every photo of the plan has its result.
    pub fn is_finished(&self) -> (r: bool)
        requires
            self.wf(),
        ensures
            r == (self.photo == self.plan@.len()),
    {
        self.photo == self.plan.len()
    }

    /// The rename to perform next: the processed file of the current photo,
    /// or its raw sibling once the processed file was moved.
    pub fn next_step(&self) -> (r: CommitStep)
        requires
            self.wf(),
        ensures
            self.photo == self.plan@.len() ==> r is Finished,
            self.photo < self.plan@.len() && !self.raw_pending ==> (match r {
                CommitStep::Rename { from, to } => from@ == self.plan@[self.photo as int].processed.from@
                    && to@ == self.plan@[self.photo as int].processed.to@,
                CommitStep::Finished => false,
            }),
            self.raw_pending ==> (match r {
                CommitStep::Rename { from, to } => from@ == self.plan@[self.photo as int].raw->Planned_0.from@
                    && to@ == self.plan@[self.photo as int].raw->Planned_0.to@,
                CommitStep::Finished => false,
            }),
            match r {
                CommitStep::Rename { from, to } => rename_asked(move_views(self.plan@), self.run_view())
                    == Some(MoveView { from: from@, to: to@ }),
                CommitStep::Finished => rename_asked(move_views(self.plan@), self.run_view()) is None,
            },
    {
        proof {
            if self.photo < self.plan@.len() {
                assert(move_views(self.plan@)[self.photo as int] == self.plan@[self.photo as int]@);
            }
        }
        if self.photo == self.plan.len() {
            return CommitStep::Finished;
        }
        let current = &self.plan[self.photo];
        if self.raw_pending {
            match &current.raw {
                RawMove::Planned(raw) => CommitStep::Rename {
                    from: raw.from.clone(),
                    to: raw.to.clone(),
                },
                _ => CommitStep::Finished,
            }
        } else {
            CommitStep::Rename {
                from: current.processed.from.clone(),
                to: current.processed.to.clone(),
            }
        }
    }

    /// Takes in whether the rename that `next_step` gave succeeded. A
    /// processed move that failed ends the photo with `Processed`; one that
    /// worked ends it with `Ok` where there is no raw sibling, with `Raw`
    /// where the raw sibling has no destination, and else leaves the raw move
    /// next; the raw move ends it with `Ok` or `Raw`. Nothing changes once
    /// the run is finished.
    pub fn record(&mut self, succeeded: bool)
        requires
            old(self).wf(),
        ensures
            final(self).wf(),
            final(self).plan@ == old(self).plan@,
            final(self).run_view() == run_step(
                move_views(old(self).plan@),
                old(self).run_view(),
                succeeded,
            ),
            old(self).photo == old(self).plan@.len() ==> final(self).photo == old(self).photo
                && final(self).results@ == old(self).results@ && final(self).raw_pending
                == old(self).raw_pending,
            old(self).photo < old(self).plan@.len() && !old(self).raw_pending && !succeeded ==> {
                &&& final(self).photo == old(self).photo + 1
                &&& !final(self).raw_pending
                &&& final(self).results@ == old(self).results@.push(Err(MoveFailure::Processed))
            },
            old(self).photo < old(self).plan@.len() && !old(self).raw_pending && succeeded
                && old(self).plan@[old(self).photo as int].raw is Planned ==> {
                &&& final(self).photo == old(self).photo
                &&& final(self).raw_pending
                &&& final(self).results@ == old(self).results@
            },
            old(self).photo < old(self).plan@.len() && !old(self).raw_pending && succeeded
                && old(self).plan@[old(self).photo as int].raw is Absent ==> {
                &&& final(self).photo == old(self).photo + 1
                &&& !final(self).raw_pending
                &&& final(self).results@ == old(self).results@.push(Ok(()))
            },
            old(self).photo < old(self).plan@.len() && !old(self).raw_pending && succeeded
                && old(self).plan@[old(self).photo as int].raw is NoDestination ==> {
                &&& final(self).photo == old(self).photo + 1
                &&& !final(self).raw_pending
                &&& final(self).results@ == old(self).results@.push(Err(MoveFailure::Raw))
            },
            old(self).raw_pending ==> {
                &&& final(self).photo == old(self).photo + 1
                &&& !final(self).raw_pending
                &&& final(self).results@ == old(self).results@.push(
                    if succeeded {
                        Ok(())
                    } else {
                        Err(MoveFailure::Raw)
                    },
                )
            },
    {
        proof {
            if self.photo < self.plan@.len() {
                assert(move_views(self.plan@)[self.photo as int] == self.plan@[self.photo as int]@);
            }
        }
        if self.photo == self.plan.len() {
            return;
        }
        if self.raw_pending {
            if succeeded {
                self.results.push(Ok(()));
            } else {
                self.results.push(Err(MoveFailure::Raw));
            }
            self.raw_pending = false;
            self.photo = self.photo + 1;
        } else if !succeeded {
            self.results.push(Err(MoveFailure::Processed));
            self.photo = self.photo + 1;
        } else {
            match &self.plan[self.photo].raw {
                RawMove::Planned(_) => {
                    self.raw_pending = true;
                },
                RawMove::Absent => {
                    self.results.push(Ok(()));
                    self.photo = self.photo + 1;
                },
                RawMove::NoDestination(_) => {
                    self.results.push(Err(MoveFailure::Raw));
                    self.photo = self.photo + 1;
                },
            }
        }
    }

    /// The results of the photos handled so far, one per photo, in plan
    /// order.
    pub fn into_results(self) -> (r: Vec<Result<(), MoveFailure>>)
        ensures
            r@ == self.results@,
    {
        self.results
    }
}

} // verus!
