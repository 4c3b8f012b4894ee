//! Freshness decision and atomic replacement of the on-disk dataset file.
//!
//! The freshness check works on plain clock readings handed in by the
//! caller, who stats the file. Replacement is modelled as a pair of file
//! contents — the canonical path and a temporary path in the same
//! directory — driven through the same steps the caller performs against
//! the real file system: open a temporary file, append to it while the
//! payload streams in, then either rename it over the canonical path in
//! one step or abandon it. The model lets the atomicity guarantee be
//! stated and proved: nothing short of the final rename touches the
//! canonical contents.

use vstd::prelude::*;

use crate::trim::{join_lines_spec, lemma_join_push, trim_line, trim_lines_spec};

verus! {

/// Default staleness window for a cached dataset file: 24 hours, in
/// seconds.
pub const MAX_CACHE_AGE_SECS: u64 = 86400;

/// Freshness of the cached file, over plain values read from the file
/// system by the caller.
///
/// A missing file is stale. A file whose modification time cannot be
/// read is kept (not stale). Otherwise the file is stale exactly when
/// its age exceeds `max_age_secs` — a file exactly `max_age_secs` old is
/// still fresh, and a modification time in the future counts as age
/// zero.
pub open spec fn stale(
    exists: bool,
    modified_secs: Option<u64>,
    now_secs: u64,
    max_age_secs: u64,
) -> bool {
    if !exists {
        true
    } else {
        match modified_secs {
            Option::None => false,
            Option::Some(m) => now_secs > m && now_secs - m > max_age_secs,
        }
    }
}

/// Decide whether the cached file must be re-fetched.
///
/// `exists` says whether a regular file is present at the path,
/// `modified_secs` its modification time if that could be read, and
/// `now_secs` the current clock, all in seconds.
pub fn is_stale(
    exists: bool,
    modified_secs: Option<u64>,
    now_secs: u64,
    max_age_secs: u64,
) -> (r: bool)
    ensures
        r == stale(exists, modified_secs, now_secs, max_age_secs),
{
    if !exists {
        true
    } else {
        match modified_secs {
            Option::None => false,
            Option::Some(m) => now_secs > m && now_secs - m > max_age_secs,
        }
    }
}

/// The contents the materialize discipline can observe: the canonical
/// cache path and the temporary file beside it. `None` stands for an
/// absent file.
pub struct BulkFileCache {
    /// Contents of the canonical cache path, if the file exists.
    pub canonical: Option<Vec<u8>>,
    /// Contents of the temporary file, while one is open.
    pub temp: Option<Vec<u8>>,
}

impl View for BulkFileCache {
    type V = BulkFileCacheView;

    open spec fn view(&self) -> BulkFileCacheView {
        BulkFileCacheView {
            canonical: match self.canonical {
                Option::Some(c) => Option::Some(c@),
                Option::None => Option::None,
            },
            temp: match self.temp {
                Option::Some(t) => Option::Some(t@),
                Option::None => Option::None,
            },
        }
    }
}

/// Mathematical image of `BulkFileCache`: each file as a byte sequence.
pub struct BulkFileCacheView {
    /// Contents of the canonical cache path, if the file exists.
    pub canonical: Option<Seq<u8>>,
    /// Contents of the temporary file, while one is open.
    pub temp: Option<Seq<u8>>,
}

/// One step of the materialize discipline that is not the final rename:
/// opening the temporary file empty, appending a chunk to it, or
/// abandoning it. None of these relates the canonical contents of the
/// two states in any way other than equality.
pub open spec fn non_commit_step(pre: BulkFileCacheView, post: BulkFileCacheView) -> bool {
    post.canonical == pre.canonical && {
        ||| post.temp == Option::Some(Seq::<u8>::empty())
        ||| (pre.temp is Some && post.temp is Some && exists|chunk: Seq<u8>|
            post.temp == Option::Some(pre.temp.unwrap() + chunk))
        ||| post.temp is None
    }
}

impl BulkFileCache {
    /// A directory state before any materialize has run: the canonical
    /// file as found (or absent), no temporary file.
    pub fn open_dir(canonical: Option<Vec<u8>>) -> (c: Self)
        ensures
            c.canonical == canonical,
            c.temp is None,
    {
        BulkFileCache { canonical, temp: None }
    }

    /// Open the temporary file, truncating anything left behind by an
    /// earlier interrupted run. The canonical file is untouched.
    pub fn begin_temp(&mut self)
        ensures
            final(self).canonical == old(self).canonical,
            final(self)@.temp == Option::Some(Seq::<u8>::empty()),
            non_commit_step(old(self)@, final(self)@),
    {
        self.temp = Some(Vec::new());
    }

    /// Append one chunk of the streamed payload to the temporary file.
    /// The canonical file is untouched.
    pub fn append_temp(&mut self, chunk: &Vec<u8>)
        requires
            old(self).temp is Some,
        ensures
            final(self).canonical == old(self).canonical,
            final(self)@.temp == Option::Some(old(self)@.temp.unwrap() + chunk@),
            non_commit_step(old(self)@, final(self)@),
    {
        let mut taken: Option<Vec<u8>> = None;
        core::mem::swap(&mut taken, &mut self.temp);
        let mut buf = taken.unwrap();
        let ghost pre = buf@;
        let mut i: usize = 0;
        while i < chunk.len()
            invariant
                i <= chunk.len(),
                buf@ == pre + chunk@.subrange(0, i as int),
            decreases chunk.len() - i,
        {
            buf.push(chunk[i]);
            proof {
                assert(pre + chunk@.subrange(0, i as int) + seq![chunk@[i as int]] =~= pre
                    + chunk@.subrange(0, i as int + 1));
            }
            i = i + 1;
        }
        proof {
            assert(chunk@.subrange(0, chunk@.len() as int) =~= chunk@);
        }
        self.temp = Some(buf);
    }

    /// Abandon an interrupted materialize: the temporary file is
    /// removed, the canonical file is untouched.
    pub fn abort_temp(&mut self)
        ensures
            final(self).canonical == old(self).canonical,
            final(self).temp is None,
            non_commit_step(old(self)@, final(self)@),
    {
        self.temp = None;
    }

    /// Materialize a downloaded payload: stream it through the trim,
    /// line by line, into the temporary file — each retained line
    /// followed by its terminator — and only then rename the temporary
    /// file over the canonical path. An interruption anywhere before
    /// that last step leaves the canonical contents as they were.
    pub fn materialize_trimmed(&mut self, payload_lines: &Vec<Vec<u8>>)
        ensures
            final(self)@.canonical == Option::Some(
                join_lines_spec(trim_lines_spec(payload_lines.deep_view())),
            ),
            final(self).temp is None,
    {
        let ghost ls = payload_lines.deep_view();
        self.begin_temp();
        proof {
            assert(ls.subrange(0, 0) =~= Seq::<Seq<u8>>::empty());
        }
        let mut i: usize = 0;
        while i < payload_lines.len()
            invariant
                ls == payload_lines.deep_view(),
                ls.len() == payload_lines.len(),
                i <= payload_lines.len(),
                self@.temp == Option::Some(
                    join_lines_spec(trim_lines_spec(ls.subrange(0, i as int))),
                ),
            decreases payload_lines.len() - i,
        {
            let ghost pre = trim_lines_spec(ls.subrange(0, i as int));
            proof {
                assert(ls[i as int] == payload_lines@[i as int].deep_view());
                assert(payload_lines@[i as int].deep_view() =~= payload_lines@[i as int]@);
                assert(ls.subrange(0, i as int + 1).drop_last() =~= ls.subrange(0, i as int));
                assert(ls.subrange(0, i as int + 1).last() == ls[i as int]);
            }
            match trim_line(&payload_lines[i]) {
                Some(t) => {
                    self.append_temp(&t);
                    let mut nl: Vec<u8> = Vec::new();
                    nl.push(10);
                    self.append_temp(&nl);
                    proof {
                        assert(nl@ =~= seq![10u8]);
                        lemma_join_push(pre, t@);
                        assert(trim_lines_spec(ls.subrange(0, i as int + 1)) == pre.push(t@));
                        assert(join_lines_spec(pre) + t@ + nl@ =~= join_lines_spec(pre) + t@
                            + seq![10u8]);
                    }
                },
                None => {
                    proof {
                        assert(trim_lines_spec(ls.subrange(0, i as int + 1)) == pre);
                    }
                },
            }
            i = i + 1;
        }
        proof {
            assert(ls.subrange(0, ls.len() as int) =~= ls);
        }
        self.commit_temp();
    }

    /// The final rename: in one step the fully written temporary file
    /// becomes the canonical file. Only here do the canonical contents
    /// change.
    pub fn commit_temp(&mut self)
        requires
            old(self).temp is Some,
        ensures
            final(self).canonical == old(self).temp,
            final(self).temp is None,
    {
        let mut taken: Option<Vec<u8>> = None;
        core::mem::swap(&mut taken, &mut self.temp);
        self.canonical = taken;
    }
}

/// Atomicity of `materialize`: however many steps of a materialize run
/// before the final rename — and whether the run then stops, fails or is
/// abandoned — the canonical path still holds exactly what it held at
/// the start.
pub proof fn lemma_interrupted_materialize(states: Seq<BulkFileCacheView>)
    requires
        states.len() >= 1,
        forall|k: int| 0 <= k < states.len() - 1 ==> #[trigger] non_commit_step(
            states[k],
            states[k + 1],
        ),
    ensures
        states.last().canonical == states[0].canonical,
    decreases states.len(),
{
    if states.len() > 1 {
        let sub = states.drop_last();
        lemma_interrupted_materialize(sub);
        let k: int = states.len() - 2;
        assert(non_commit_step(states[k], states[k + 1]));
        assert(sub.last() == states[k]);
    }
}

} // verus!
