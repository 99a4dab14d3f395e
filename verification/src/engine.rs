//! The resolver/fetcher engine.
//!
//! The engine consumes candidate references, classifies each fetched body
//! (direct image, then gallery layout A, then layout B, in that order),
//! stores accepted images, mines galleries recursively under one shared
//! acceptance quota, and records terminal outcomes in the deduplication
//! ledger.  It is a state machine: the caller performs the network fetch
//! and the file write it asks for, and feeds every outcome back in.
//!
//! The caller's loop: while [`Fetcher::satisfied`] is false, pull a
//! reference from the listing and [`Fetcher::submit`] it, then call
//! [`Fetcher::next`] until it answers [`Step::NeedInput`].  A
//! [`Step::Fetch`] is answered through [`Fetcher::on_body`] or
//! [`Fetcher::on_fetch_failed`]; once a store verdict's write has run,
//! the caller reports its outcome through [`Fetcher::on_store_result`].

use vstd::prelude::*;

use crate::gallery::{imgur_gallery_urls, reddit_gallery_urls, spec_imgur_gallery,
    spec_reddit_gallery};
use crate::ledger::PersistentSet;
use crate::media::{decode_dims, image_dims_of, ratio_ok, resize_to_png, resized_png_of,
    spec_ratio_ok};
use crate::store::{make_filename, spec_filename};

verus! {

/// How many images the store aims to hold; one run stops accepting new
/// images once the store is replenished to this count.
pub const MAX_CACHED: usize = 25;

/// What the engine is waiting for.
pub enum Phase {
    /// Nothing outstanding: `next` may be called.
    Idle,
    /// A fetch of this reference's body is outstanding.
    AwaitingBody(String),
    /// A store write for this reference is outstanding.
    AwaitingStore(String),
}

/// One list of references being mined: the top-level submission or the
/// members of a gallery.
pub struct Frame {
    /// The gallery reference this frame mines, or `None` at top level.
    pub origin: Option<String>,
    /// The member references, in order.
    pub members: Vec<String>,
    /// How many members have been examined (offered, whether or not they
    /// were skipped or failed).
    pub touched: usize,
}

/// What the engine asks the caller to do next.
pub enum Step {
    /// Fetch this reference's body, then call `on_body` or
    /// `on_fetch_failed`.
    Fetch(String),
    /// This reference was already in the ledger and was passed over.
    Skipped(String),
    /// A frame finished.  `exhausted` says every member was examined; an
    /// exhausted gallery is recorded invalid so it is never mined again,
    /// while an abandoned one (quota hit first) stays unmarked for a
    /// future run.
    FrameDone { origin: Option<String>, exhausted: bool, touched: usize },
    /// No frames left: submit the next reference, or end the run.
    NeedInput,
}

/// The engine's answer to one fetched body.
pub enum Verdict {
    /// An acceptable direct image: write `bytes` to the store under
    /// `filename` atomically, then call `on_store_result`.
    Store { filename: String, bytes: Vec<u8> },
    /// A direct image whose shape misses the target ratio: hard reject,
    /// recorded invalid, never retried as a gallery.
    BadRatio,
    /// A gallery: its members were queued as a new frame.
    Gallery { members: usize },
    /// An acceptable image whose re-encode failed: recorded invalid.
    Failed,
    /// No classifier recognized the body: recorded invalid.
    Unrecognized,
}

/// How one body classifies, in priority order: direct image first (its
/// ratio decided exactly), then gallery layout A, then layout B.
pub enum SpecClass {
    Direct,
    BadRatio,
    GalleryA(Seq<Seq<char>>),
    GalleryB(Seq<Seq<char>>),
    Unknown,
}

/// The classification of a body against a `sw`×`sh` display.
pub open spec fn spec_classify(body: Seq<u8>, sw: u32, sh: u32) -> SpecClass {
    match image_dims_of(body) {
        Some(d) => if spec_ratio_ok(d.0, d.1, sw, sh) {
            SpecClass::Direct
        } else {
            SpecClass::BadRatio
        },
        None => match spec_imgur_gallery(body) {
            Some(urls) => SpecClass::GalleryA(urls),
            None => match spec_reddit_gallery(body) {
                Some(urls) => SpecClass::GalleryB(urls),
                None => SpecClass::Unknown,
            },
        },
    }
}

/// Law: a body classified for storage decodes to dimensions that fit the
/// target ratio within the tolerance.  Only such bodies are ever handed
/// over for a store write.
pub proof fn lemma_accepted_fits_ratio(body: Seq<u8>, sw: u32, sh: u32)
    requires
        spec_classify(body, sw, sh) is Direct,
    ensures
        image_dims_of(body) matches Some(d) && spec_ratio_ok(d.0, d.1, sw, sh),
{
}

/// The gallery members a classification queues, if it is a gallery.
pub open spec fn spec_class_members(c: SpecClass) -> Option<Seq<Seq<char>>> {
    match c {
        SpecClass::GalleryA(urls) => Some(urls),
        SpecClass::GalleryB(urls) => Some(urls),
        _ => None,
    }
}

pub open spec fn frame_wf(f: Frame) -> bool {
    f.touched <= f.members@.len()
}

/// The resolver/fetcher engine.
pub struct Fetcher {
    /// References stored in some run; never fetched again.
    pub downloaded: PersistentSet,
    /// References with a terminal failure; never fetched again.
    pub invalid: PersistentSet,
    /// Images newly accepted this run.
    pub gotten: usize,
    /// The acceptance quota of this run.
    pub need: usize,
    /// The target display's width.
    pub sw: u32,
    /// The target display's height.
    pub sh: u32,
    /// The stack of lists being mined; the innermost gallery on top.
    pub frames: Vec<Frame>,
    /// What the engine is waiting for.
    pub phase: Phase,
}

impl Fetcher {
    pub open spec fn wf(&self) -> bool {
        &&& self.gotten <= self.need
        &&& !(self.phase is Idle) ==> self.gotten < self.need
        &&& self.sw > 0
        &&& self.sh > 0
        &&& forall|i: int| 0 <= i < self.frames@.len() ==> frame_wf(#[trigger] self.frames@[i])
    }

    /// A fresh engine.  The quota is what the store still lacks:
    /// `MAX_CACHED` less the images it already holds, never negative.
    pub fn new(
        downloaded: PersistentSet,
        invalid: PersistentSet,
        store_count: usize,
        sw: u32,
        sh: u32,
    ) -> (r: Fetcher)
        requires
            sw > 0,
            sh > 0,
        ensures
            r.wf(),
            r.downloaded == downloaded,
            r.invalid == invalid,
            r.gotten == 0,
            r.need == if store_count >= MAX_CACHED {
                0usize
            } else {
                (MAX_CACHED - store_count) as usize
            },
            r.sw == sw,
            r.sh == sh,
            r.frames@.len() == 0,
            r.phase is Idle,
    {
        let need = if store_count >= MAX_CACHED {
            0
        } else {
            MAX_CACHED - store_count
        };
        Fetcher {
            downloaded,
            invalid,
            gotten: 0,
            need,
            sw,
            sh,
            frames: Vec::new(),
            phase: Phase::Idle,
        }
    }

    /// Law: the quota is respected.  The engine never counts more newly
    /// accepted images than the run's quota.
    pub proof fn lemma_quota_respected(&self)
        requires
            self.wf(),
        ensures
            self.gotten <= self.need,
    {
    }

    /// Has the quota been met?  Once true, the caller stops pulling new
    /// references; work already queued may still be abandoned via `next`.
    pub fn satisfied(&self) -> (r: bool)
        ensures
            r == (self.gotten >= self.need),
    {
        self.gotten >= self.need
    }

    /// Offer one top-level reference from the listing.
    pub fn submit(&mut self, url: String)
        requires
            old(self).wf(),
            old(self).phase is Idle,
            old(self).frames@.len() == 0,
        ensures
            final(self).wf(),
            final(self).frames@.len() == 1,
            final(self).frames@[0].origin is None,
            final(self).frames@[0].members@ =~= seq![url],
            final(self).frames@[0].touched == 0,
            final(self).downloaded == old(self).downloaded,
            final(self).invalid == old(self).invalid,
            final(self).gotten == old(self).gotten,
            final(self).need == old(self).need,
            final(self).sw == old(self).sw,
            final(self).sh == old(self).sh,
            final(self).phase is Idle,
    {
        let mut members: Vec<String> = Vec::new();
        members.push(url);
        self.frames.push(Frame { origin: None, members, touched: 0 });
    }

    /// The engine may offer `url` for resolution only when it is in
    /// neither ledger set and the quota still has room.
    pub open spec fn may_fetch(self, url: Seq<char>) -> bool {
        &&& !self.downloaded@.contains(url)
        &&& !self.invalid@.contains(url)
        &&& self.gotten < self.need
    }

    /// Law: a reference once recorded `downloaded` or `invalid` is never
    /// resubmitted for resolution.  Every `Step::Fetch` that `next` yields
    /// satisfies `may_fetch`; and since a flushed ledger parses back to
    /// exactly the entries written (`PersistentSet::to_lines`), the same
    /// holds in every later run that loads the flushed ledgers.
    pub proof fn lemma_marked_never_resubmitted(self, url: Seq<char>)
        requires
            self.downloaded@.contains(url) || self.invalid@.contains(url),
        ensures
            !self.may_fetch(url),
    {
    }

    /// Advance one step.  Never yields a reference already in the ledger:
    /// a `Fetch(u)` promises `u` is in neither set (so a reference once
    /// marked `downloaded` or `invalid` is never resubmitted), and no
    /// reference is pulled once the quota is met.
    pub fn next(&mut self) -> (r: Step)
        requires
            old(self).wf(),
            old(self).phase is Idle,
        ensures
            final(self).wf(),
            r matches Step::Fetch(u) ==> old(self).may_fetch(u@),
            final(self).downloaded == old(self).downloaded,
            final(self).gotten == old(self).gotten,
            final(self).need == old(self).need,
            final(self).sw == old(self).sw,
            final(self).sh == old(self).sh,
            // No frame: ask for input, change nothing.
            old(self).frames@.len() == 0 ==> {
                &&& r is NeedInput
                &&& final(self).frames@ == old(self).frames@
                &&& final(self).invalid == old(self).invalid
                &&& final(self).phase is Idle
            },
            // The top frame is drained: finalize it.  Exhausted galleries
            // are recorded invalid; an abandoned frame stays unmarked.
            old(self).frames@.len() > 0 ==> {
                let f = old(self).frames@.last();
                &&& (f.touched == f.members@.len() ==> {
                    &&& r matches Step::FrameDone { origin, exhausted, touched }
                        && origin == f.origin && exhausted == true && touched == f.touched
                    &&& final(self).frames@ == old(self).frames@.drop_last()
                    &&& final(self).invalid@ == (match f.origin {
                        Some(g) => old(self).invalid@.insert(g@),
                        None => old(self).invalid@,
                    })
                    &&& final(self).phase is Idle
                })
                &&& (f.touched < f.members@.len() && old(self).gotten >= old(self).need ==> {
                    &&& r matches Step::FrameDone { origin, exhausted, touched }
                        && origin == f.origin && exhausted == false && touched == f.touched
                    &&& final(self).frames@ == old(self).frames@.drop_last()
                    &&& final(self).invalid == old(self).invalid
                    &&& final(self).phase is Idle
                })
                &&& (f.touched < f.members@.len() && old(self).gotten < old(self).need ==> {
                    let url = f.members@[f.touched as int];
                    &&& final(self).invalid == old(self).invalid
                    &&& final(self).frames@.len() == old(self).frames@.len()
                    &&& final(self).frames@.drop_last() == old(self).frames@.drop_last()
                    &&& final(self).frames@.last().origin == f.origin
                    &&& final(self).frames@.last().members == f.members
                    &&& final(self).frames@.last().touched == f.touched + 1
                    &&& (old(self).downloaded@.contains(url@) || old(self).invalid@.contains(
                        url@,
                    )) ==> {
                        &&& r matches Step::Skipped(u) && u == url
                        &&& final(self).phase is Idle
                    }
                    &&& !(old(self).downloaded@.contains(url@) || old(self).invalid@.contains(
                        url@,
                    )) ==> {
                        &&& r matches Step::Fetch(u) && u == url
                        &&& final(self).phase matches Phase::AwaitingBody(p) && p == url
                    }
                })
            },
    {
        if self.frames.len() == 0 {
            return Step::NeedInput;
        }
        let mut f = match self.frames.pop() {
            Some(f) => f,
            None => {
                proof {
                    assert(false);
                }
                return Step::NeedInput;
            },
        };
        if f.touched == f.members.len() {
            let exhausted = true;
            match &f.origin {
                Some(g) => {
                    self.invalid.insert(g.clone());
                },
                None => {},
            }
            return Step::FrameDone { origin: f.origin, exhausted, touched: f.touched };
        }
        if self.gotten >= self.need {
            return Step::FrameDone { origin: f.origin, exhausted: false, touched: f.touched };
        }
        let url = f.members[f.touched].clone();
        f.touched = f.touched + 1;
        self.frames.push(f);
        let already = self.downloaded.contains(&url) || self.invalid.contains(&url);
        if already {
            Step::Skipped(url)
        } else {
            self.phase = Phase::AwaitingBody(url.clone());
            Step::Fetch(url)
        }
    }

    /// The fetch of `url` failed for good (retries exhausted, or the
    /// listing handed a reference nothing can retrieve): record it
    /// invalid and move on.
    pub fn on_fetch_failed(&mut self, url: &String)
        requires
            old(self).wf(),
            old(self).phase matches Phase::AwaitingBody(p) && p@ == url@,
        ensures
            final(self).wf(),
            final(self).invalid@ == old(self).invalid@.insert(url@),
            final(self).downloaded == old(self).downloaded,
            final(self).gotten == old(self).gotten,
            final(self).need == old(self).need,
            final(self).sw == old(self).sw,
            final(self).sh == old(self).sh,
            final(self).frames == old(self).frames,
            final(self).phase is Idle,
    {
        self.invalid.insert(url.clone());
        self.phase = Phase::Idle;
    }

    /// Classify a fetched body and act on it: queue an accepted image for
    /// storage, queue a gallery's members as a new frame, or record the
    /// reference invalid.
    pub fn on_body(&mut self, url: &String, body: &Vec<u8>) -> (r: Verdict)
        requires
            old(self).wf(),
            old(self).phase matches Phase::AwaitingBody(p) && p@ == url@,
        ensures
            final(self).wf(),
            final(self).downloaded == old(self).downloaded,
            final(self).need == old(self).need,
            final(self).gotten == old(self).gotten,
            final(self).sw == old(self).sw,
            final(self).sh == old(self).sh,
            ({
                let c = spec_classify(body@, old(self).sw, old(self).sh);
                &&& (c is Direct && resized_png_of(body@, old(self).sw, old(self).sh) is Some
                    ==> {
                    &&& r matches Verdict::Store { filename, bytes } && filename@
                        == spec_filename(url@) && Some(bytes@) == resized_png_of(
                        body@,
                        old(self).sw,
                        old(self).sh,
                    )
                    &&& final(self).phase matches Phase::AwaitingStore(p) && p@ == url@
                    &&& final(self).invalid == old(self).invalid
                    &&& final(self).frames == old(self).frames
                })
                &&& (c is Direct && resized_png_of(body@, old(self).sw, old(self).sh) is None
                    ==> {
                    &&& r is Failed
                    &&& final(self).invalid@ == old(self).invalid@.insert(url@)
                    &&& final(self).frames == old(self).frames
                    &&& final(self).phase is Idle
                })
                &&& (c is BadRatio ==> {
                    &&& r is BadRatio
                    &&& final(self).invalid@ == old(self).invalid@.insert(url@)
                    &&& final(self).frames == old(self).frames
                    &&& final(self).phase is Idle
                })
                &&& (spec_class_members(c) matches Some(urls) ==> {
                    &&& r matches Verdict::Gallery { members } && members == urls.len()
                    &&& final(self).invalid == old(self).invalid
                    &&& final(self).frames@.len() == old(self).frames@.len() + 1
                    &&& final(self).frames@.drop_last() == old(self).frames@
                    &&& final(self).frames@.last().origin matches Some(g) && g@ == url@
                    &&& final(self).frames@.last().members.deep_view() == urls
                    &&& final(self).frames@.last().touched == 0
                    &&& final(self).phase is Idle
                })
                &&& (c is Unknown ==> {
                    &&& r is Unrecognized
                    &&& final(self).invalid@ == old(self).invalid@.insert(url@)
                    &&& final(self).frames == old(self).frames
                    &&& final(self).phase is Idle
                })
            }),
    {
        match decode_dims(body) {
            Some((iw, ih)) => {
                if ratio_ok(iw, ih, self.sw, self.sh) {
                    match resize_to_png(body, self.sw, self.sh) {
                        Some(bytes) => {
                            let filename = make_filename(url.as_str());
                            self.phase = Phase::AwaitingStore(url.clone());
                            Verdict::Store { filename, bytes }
                        },
                        None => {
                            self.invalid.insert(url.clone());
                            self.phase = Phase::Idle;
                            Verdict::Failed
                        },
                    }
                } else {
                    self.invalid.insert(url.clone());
                    self.phase = Phase::Idle;
                    Verdict::BadRatio
                }
            },
            None => {
                let urls = match imgur_gallery_urls(body) {
                    Some(urls) => Some(urls),
                    None => reddit_gallery_urls(body),
                };
                match urls {
                    Some(members) => {
                        let count = members.len();
                        self.frames.push(
                            Frame { origin: Some(url.clone()), members, touched: 0 },
                        );
                        self.phase = Phase::Idle;
                        Verdict::Gallery { members: count }
                    },
                    None => {
                        self.invalid.insert(url.clone());
                        self.phase = Phase::Idle;
                        Verdict::Unrecognized
                    },
                }
            },
        }
    }

    /// The store write for `url` finished.  Success counts the acceptance
    /// against the quota; failure is fatal for this reference only and
    /// records it invalid.
    pub fn on_store_result(&mut self, url: &String, ok: bool)
        requires
            old(self).wf(),
            old(self).phase matches Phase::AwaitingStore(p) && p@ == url@,
        ensures
            final(self).wf(),
            final(self).downloaded == old(self).downloaded,
            final(self).need == old(self).need,
            final(self).sw == old(self).sw,
            final(self).sh == old(self).sh,
            final(self).frames == old(self).frames,
            final(self).phase is Idle,
            ok ==> final(self).gotten == old(self).gotten + 1 && final(self).invalid == old(
                self,
            ).invalid,
            !ok ==> final(self).gotten == old(self).gotten && final(self).invalid@ == old(
                self,
            ).invalid@.insert(url@),
    {
        if ok {
            self.gotten = self.gotten + 1;
        } else {
            self.invalid.insert(url.clone());
        }
        self.phase = Phase::Idle;
    }
}

} // verus!
