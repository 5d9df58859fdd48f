//! Size-triggered rotation: the length estimate, the trigger, the roller and
//! its fixed-window rename chain, and the plan of filesystem operations a
//! roll performs. The plan is computed here and proved against a model of
//! the filesystem; the embedding executes it.
use vstd::prelude::*;

use crate::chars::{chars_of, replace_chars, spec_dec, spec_replace, string_of, u_to_dec};

verus! {

/// The estimated byte length of the open file: read once from real metadata,
/// then kept additively, never re-measured on the hot path.
#[derive(Clone, Debug)]
pub struct LogFileMeta {
    pub est_len: u64,
}

impl LogFileMeta {
    /// A fresh estimate, from a real length.
    pub fn new(len: u64) -> (r: Self)
        ensures
            r.est_len == len,
    {
        LogFileMeta { est_len: len }
    }

    /// Accounts `bs_count` freshly written bytes: the estimate only grows,
    /// saturating instead of wrapping.
    pub fn wrote(&mut self, bs_count: usize)
        ensures
            final(self).est_len == if old(self).est_len + bs_count <= u64::MAX {
                old(self).est_len + bs_count
            } else {
                u64::MAX as int
            },
            final(self).est_len >= old(self).est_len,
    {
        let n = bs_count as u64;
        if self.est_len > u64::MAX - n {
            self.est_len = u64::MAX;
        } else {
            self.est_len = self.est_len + n;
        }
    }

    /// The current estimate.
    pub fn len_estimate(&self) -> (r: u64)
        ensures
            r == self.est_len,
    {
        self.est_len
    }
}

/// When to roll: a size trigger fires once the estimate exceeds its limit.
#[derive(Clone, Debug)]
pub enum Trigger {
    Size { limit: u64 },
}

impl Trigger {
    /// True iff the estimated length strictly exceeds the limit.
    pub fn should_roll(&self, meta: &LogFileMeta) -> (r: bool)
        ensures
            r == (self matches Trigger::Size { limit } && limit < meta.est_len),
    {
        match self {
            Trigger::Size { limit } => *limit < meta.est_len,
        }
    }
}

/// The name of the backup slot `i` under roll pattern `p`: every `{}` in the
/// pattern replaced by the decimal index.
pub open spec fn spec_pattern_at(p: Seq<char>, i: int) -> Seq<char> {
    spec_replace(p, "{}"@, spec_dec(i))
}

/// A bounded window of numbered backup files. Slot 0 is the newest backup,
/// `count - 1` the oldest; `last` is the highest occupied slot.
#[derive(Clone, Debug)]
pub struct FixedWindow {
    pub last: Option<usize>,
    pub count: usize,
    pub pattern: String,
}

impl FixedWindow {
    /// The window never records a slot at or past its bound.
    pub open spec fn wf(self) -> bool {
        self.last matches Some(x) ==> x < self.count
    }

    /// Notes one more occupied slot: the first roll occupies slot 0, later
    /// rolls the next slot up, and a full window stays at `count - 1`.
    pub fn inc_last(&mut self) -> (r: usize)
        requires
            old(self).wf(),
            old(self).count > 0,
        ensures
            final(self).wf(),
            final(self).count == old(self).count,
            final(self).pattern == old(self).pattern,
            match old(self).last {
                None => r == 0 && final(self).last == Some(0usize),
                Some(x) => if x + 1 == old(self).count {
                    r == x && final(self).last == Some(x)
                } else {
                    r == x + 1 && final(self).last == Some((x + 1) as usize)
                },
            },
    {
        match self.last {
            None => {
                self.last = Some(0);
                0
            },
            Some(x) => {
                if x + 1 == self.count {
                    x
                } else {
                    self.last = Some(x + 1);
                    x + 1
                }
            },
        }
    }

    /// The executable name of backup slot `i`.
    pub fn pattern_at(&self, i: usize) -> (r: String)
        ensures
            r@ == spec_pattern_at(self.pattern@, i as int),
    {
        let pat_chars = chars_of(self.pattern.as_str());
        let mut token: Vec<char> = Vec::new();
        token.push('{');
        token.push('}');
        proof {
            reveal_strlit("{}");
            assert(token@ =~= "{}"@);
        }
        let idx = u_to_dec(i);
        let replaced = replace_chars(&pat_chars, &token, &idx);
        string_of(&replaced)
    }
}

/// How to roll: drop the active file, or keep a fixed window of backups.
#[derive(Clone, Debug)]
pub enum Roller {
    Delete,
    FixedWindow(FixedWindow),
}

impl Roller {
    /// The roller's structural soundness.
    pub open spec fn wf(self) -> bool {
        self matches Roller::FixedWindow(w) ==> w.wf() && w.count > 0
    }

    /// A fixed-window roller with no slot yet occupied.
    pub fn new_fixed(pattern: String, count: usize) -> (r: Self)
        ensures
            r == Roller::FixedWindow(FixedWindow { last: None, count, pattern }),
    {
        Roller::FixedWindow(FixedWindow { last: None, count, pattern })
    }
}

/// One filesystem operation of a roll plan.
#[derive(Clone, Debug)]
pub enum FsOp {
    /// Rename the first path to the second, replacing any file there.
    Rename(String, String),
    /// Remove the file at the path.
    Remove(String),
}

/// The renames that shift slots `c, c-1, .., 0` each one index up, highest
/// source first: `c -> c+1`, then `c-1 -> c`, down to `0 -> 1`.
pub open spec fn spec_shift_ops(p: Seq<char>, c: int) -> Seq<(Seq<char>, Seq<char>)>
    decreases c + 1,
{
    if c < 0 {
        Seq::empty()
    } else {
        seq![(spec_pattern_at(p, c), spec_pattern_at(p, c + 1))] + spec_shift_ops(p, c - 1)
    }
}

/// The full rename sequence of one fixed-window roll: the shift (skipping the
/// oldest slot when the window is full, so it is overwritten), then the
/// active file renamed into slot 0.
pub open spec fn spec_roll_renames(
    p: Seq<char>,
    last: Option<usize>,
    count: int,
    path: Seq<char>,
) -> Seq<(Seq<char>, Seq<char>)> {
    let final_op = seq![(path, spec_pattern_at(p, 0))];
    match last {
        None => final_op,
        Some(c0) => {
            if c0 + 1 == count {
                if c0 == 0 {
                    final_op
                } else {
                    spec_shift_ops(p, c0 - 1) + final_op
                }
            } else {
                spec_shift_ops(p, c0 as int) + final_op
            }
        },
    }
}

/// A model of the filesystem: which paths hold which bytes.
pub type FsModel = Map<Seq<char>, Seq<u8>>;

/// One rename, as the filesystem performs it: moves the content, replacing
/// anything at the destination; a missing source changes nothing.
pub open spec fn apply_rename(fs: FsModel, from: Seq<char>, to: Seq<char>) -> FsModel {
    if fs.contains_key(from) {
        fs.remove(from).insert(to, fs[from])
    } else {
        fs
    }
}

/// A sequence of renames applied in order.
pub open spec fn apply_renames(fs: FsModel, rs: Seq<(Seq<char>, Seq<char>)>) -> FsModel
    decreases rs.len(),
{
    if rs.len() == 0 {
        fs
    } else {
        apply_renames(apply_rename(fs, rs[0].0, rs[0].1), rs.skip(1))
    }
}

/// Do the executable operations spell exactly these renames?
pub open spec fn ops_match_renames(ops: Seq<FsOp>, rs: Seq<(Seq<char>, Seq<char>)>) -> bool {
    ops.len() == rs.len() && forall|q: int|
        #![trigger ops[q]]
        0 <= q < ops.len() ==> (ops[q] matches FsOp::Rename(f, t) && f@ == rs[q].0 && t@
            == rs[q].1)
}

/// Where the window's `last` stands after one roll.
pub open spec fn spec_inc_last(last: Option<usize>, count: int) -> Option<usize> {
    match last {
        None => Some(0usize),
        Some(x) => if x + 1 == count {
            Some(x)
        } else {
            Some((x + 1) as usize)
        },
    }
}

/// Did one roll take `before` to `after`, emitting exactly `ops`?
pub open spec fn roller_rolled(before: Roller, after: Roller, ops: Seq<FsOp>, path: Seq<char>) -> bool {
    match before {
        Roller::Delete => {
            &&& after is Delete
            &&& ops.len() == 1
            &&& ops[0] matches FsOp::Remove(p) && p@ == path
        },
        Roller::FixedWindow(w) => {
            &&& after matches Roller::FixedWindow(w2) && w2.count == w.count && w2.pattern
                == w.pattern && w2.last == spec_inc_last(w.last, w.count as int)
            &&& ops_match_renames(
                ops,
                spec_roll_renames(w.pattern@, w.last, w.count as int, path),
            )
        },
    }
}

/// The shift sequence, element by element: entry `q` renames slot `c - q` up.
proof fn lemma_shift_ops_shape(p: Seq<char>, c: int)
    requires
        c >= 0,
    ensures
        spec_shift_ops(p, c).len() == c + 1,
        forall|q: int|
            0 <= q <= c ==> #[trigger] spec_shift_ops(p, c)[q] == (
                spec_pattern_at(p, c - q),
                spec_pattern_at(p, c - q + 1),
            ),
    decreases c,
{
    if c == 0 {
        assert(spec_shift_ops(p, -1) =~= Seq::empty());
        assert(spec_shift_ops(p, 0) =~= seq![(spec_pattern_at(p, 0), spec_pattern_at(p, 1))]);
    } else {
        lemma_shift_ops_shape(p, c - 1);
        assert forall|q: int| 0 <= q <= c implies #[trigger] spec_shift_ops(p, c)[q] == (
            spec_pattern_at(p, c - q),
            spec_pattern_at(p, c - q + 1),
        ) by {
            if q > 0 {
                assert(spec_shift_ops(p, c)[q] == spec_shift_ops(p, c - 1)[q - 1]);
            }
        }
    }
}

impl Roller {
    /// Computes the filesystem operations of one roll and advances the
    /// window: delete drops the active file; a fixed window shifts each
    /// occupied slot up by one rename (overwriting the oldest when full) and
    /// renames the active file into slot 0. The embedding executes the
    /// operations in order and then reopens the active path.
    pub fn roll_plan(&mut self, path: &str) -> (ops: Vec<FsOp>)
        requires
            old(self).wf(),
        ensures
            final(self).wf(),
            roller_rolled(*old(self), *final(self), ops@, path@),
    {
        let mut ops: Vec<FsOp> = Vec::new();
        match self {
            Roller::Delete => {
                ops.push(FsOp::Remove(String::from_str(path)));
                ops
            },
            Roller::FixedWindow(w) => {
                let ghost w0 = *w;
                let c_start_opt: Option<usize> = match w.last {
                    None => None,
                    Some(c0) => {
                        if c0 + 1 == w.count {
                            if c0 == 0 {
                                None
                            } else {
                                Some(c0 - 1)
                            }
                        } else {
                            Some(c0)
                        }
                    },
                };
                if let Some(cs) = c_start_opt {
                    proof {
                        lemma_shift_ops_shape(w.pattern@, cs as int);
                    }
                    let mut k: usize = 0;
                    while k <= cs
                        invariant
                            *w == w0,
                            k <= cs + 1,
                            cs < w.count,
                            ops@.len() == k,
                            forall|q: int|
                                0 <= q < k ==> (#[trigger] ops@[q] matches FsOp::Rename(f, t)
                                    && f@ == spec_pattern_at(w.pattern@, cs - q) && t@
                                    == spec_pattern_at(w.pattern@, cs - q + 1)),
                        decreases cs + 1 - k,
                    {
                        let from = w.pattern_at(cs - k);
                        let to = w.pattern_at(cs - k + 1);
                        ops.push(FsOp::Rename(from, to));
                        k = k + 1;
                    }
                }
                w.inc_last();
                let slot0 = w.pattern_at(0);
                ops.push(FsOp::Rename(String::from_str(path), slot0));
                proof {
                    let rs = spec_roll_renames(w0.pattern@, w0.last, w0.count as int, path@);
                    if c_start_opt is Some {
                        let cs = c_start_opt.unwrap() as int;
                        lemma_shift_ops_shape(w0.pattern@, cs);
                        assert(rs =~= spec_shift_ops(w0.pattern@, cs) + seq![
                            (path@, spec_pattern_at(w0.pattern@, 0)),
                        ]);
                        assert(forall|q: int|
                            0 <= q <= cs ==> rs[q] == #[trigger] spec_shift_ops(w0.pattern@, cs)[q]);
                    } else {
                        assert(rs =~= seq![(path@, spec_pattern_at(w0.pattern@, 0))]);
                    }
                    assert(ops_match_renames(ops@, rs));
                }
                ops
            },
        }
    }
}

/// One write accounted against a rolling sink's state: the estimate grows
/// by the written bytes (saturating); while it stays at or under the limit
/// nothing else changes, and the write that pushes it past the limit rolls
/// exactly once, emitting the roll's operations and restarting the estimate
/// at zero.
pub open spec fn spec_write_step(
    before: Rolling,
    after: Rolling,
    written: int,
    ops: Option<Seq<FsOp>>,
) -> bool {
    let est1: int = if before.meta.est_len + written <= u64::MAX {
        before.meta.est_len + written
    } else {
        u64::MAX as int
    };
    let limit = before.trigger->Size_limit as int;
    &&& after.path == before.path
    &&& after.writer_open == before.writer_open
    &&& after.trigger == before.trigger
    &&& match ops {
        None => {
            &&& est1 <= limit
            &&& after.meta.est_len == est1
            &&& after.roller == before.roller
        },
        Some(o) => {
            &&& est1 > limit
            &&& after.meta.est_len == 0
            &&& roller_rolled(before.roller, after.roller, o, before.path@)
        },
    }
}

/// A rolling file sink's state: the active path, whether a writer is
/// mounted, the running length estimate, and the rotation policy.
pub struct Rolling {
    pub path: String,
    pub writer_open: bool,
    pub meta: LogFileMeta,
    pub trigger: Trigger,
    pub roller: Roller,
}

impl Rolling {
    pub open spec fn wf(self) -> bool {
        self.roller.wf()
    }

    /// A freshly opened sink: the estimate starts from the real length of
    /// the file found at the path.
    pub fn new(path: String, initial_len: u64, trigger: Trigger, roller: Roller) -> (r: Self)
        requires
            roller.wf(),
        ensures
            r.wf(),
            r.path == path,
            r.writer_open,
            r.meta.est_len == initial_len,
            r.trigger == trigger,
            r.roller == roller,
    {
        Rolling { path, writer_open: true, meta: LogFileMeta::new(initial_len), trigger, roller }
    }

    /// Accounts one completed write of `written` bytes and decides the roll:
    /// while the estimate stays at or under the limit nothing happens; the
    /// write that pushes it past the limit returns the roll's operations,
    /// exactly once, and the estimate restarts at zero for the fresh file.
    pub fn on_write(&mut self, written: usize) -> (r: Option<Vec<FsOp>>)
        requires
            old(self).wf(),
            old(self).writer_open,
        ensures
            final(self).wf(),
            spec_write_step(
                *old(self),
                *final(self),
                written as int,
                match r {
                    Some(ops) => Some(ops@),
                    None => None,
                },
            ),
    {
        self.meta.wrote(written);
        if self.trigger.should_roll(&self.meta) {
            let path = crate::chars::chars_of(self.path.as_str());
            let path_str = string_of(&path);
            let ops = self.roller.roll_plan(path_str.as_str());
            self.meta = LogFileMeta::new(0);
            Some(ops)
        } else {
            None
        }
    }
}

/// The identity of a file as the platform reports it: device and inode.
#[derive(Clone, Copy, Debug, PartialEq, Eq, Structural)]
pub struct FileId {
    pub dev: u64,
    pub ino: u64,
}

/// Does the sink need to abandon its handle and reopen? Yes exactly when the
/// handle's file is known (or assumed) good but the expected path no longer
/// resolves, or both resolve and name different files.
pub fn needs_remount(existing: Option<Result<FileId, ()>>, correct: Result<FileId, ()>) -> (r:
    bool)
    ensures
        r == match (existing, correct) {
            (Some(Ok(_)), Err(_)) => true,
            (None, Err(_)) => true,
            (Some(Ok(e)), Ok(c)) => e != c,
            _ => false,
        },
{
    match (existing, correct) {
        (Some(Ok(_)), Err(_)) => true,
        (None, Err(_)) => true,
        (Some(Ok(e)), Ok(c)) => e != c,
        _ => false,
    }
}

/// Reopening a path in append-create mode: an existing file is kept, a
/// missing one appears empty.
pub open spec fn fs_reopen(fs: FsModel, path: Seq<char>) -> FsModel {
    if fs.contains_key(path) {
        fs
    } else {
        fs.insert(path, Seq::empty())
    }
}

/// Appending bytes to the file at `path`.
pub open spec fn fs_append(fs: FsModel, path: Seq<char>, bytes: Seq<u8>) -> FsModel {
    if fs.contains_key(path) {
        fs.insert(path, fs[path] + bytes)
    } else {
        fs.insert(path, bytes)
    }
}

/// Shifting slots `0..=c` each one up moves every present slot's content to
/// the next index, leaves slot 0 vacant, and touches nothing outside slots
/// `0..=c+1`.
proof fn lemma_shift_contents(fs: FsModel, p: Seq<char>, c: int)
    requires
        c >= 0,
        forall|a: int, b: int|
            0 <= a <= c + 1 && 0 <= b <= c + 1 && a != b ==> spec_pattern_at(p, a)
                != spec_pattern_at(p, b),
    ensures
        ({
            let fs2 = apply_renames(fs, spec_shift_ops(p, c));
            &&& forall|j: int|
                #![trigger spec_pattern_at(p, j)]
                0 <= j <= c && fs.contains_key(spec_pattern_at(p, j)) ==> fs2.contains_key(
                    spec_pattern_at(p, j + 1),
                ) && fs2[spec_pattern_at(p, j + 1)] == fs[spec_pattern_at(p, j)]
            &&& !fs2.contains_key(spec_pattern_at(p, 0))
            &&& forall|q: Seq<char>|
                #![trigger fs2.contains_key(q)]
                (forall|j: int| 0 <= j <= c + 1 ==> q != spec_pattern_at(p, j)) ==> (
                fs2.contains_key(q) == fs.contains_key(q) && (fs.contains_key(q) ==> fs2[q]
                    == fs[q]))
        }),
    decreases c,
{
    let fs1 = apply_rename(fs, spec_pattern_at(p, c), spec_pattern_at(p, c + 1));
    assert(spec_shift_ops(p, c).skip(1) =~= spec_shift_ops(p, c - 1));
    assert(apply_renames(fs, spec_shift_ops(p, c)) == apply_renames(fs1, spec_shift_ops(p, c - 1)));
    if c == 0 {
        assert(spec_shift_ops(p, -1) =~= Seq::empty());
        assert(apply_renames(fs1, spec_shift_ops(p, -1)) == fs1);
    } else {
        lemma_shift_contents(fs1, p, c - 1);
        let fs2 = apply_renames(fs1, spec_shift_ops(p, c - 1));
        // slots 0..=c-1 are untouched by the first rename
        assert(forall|j: int|
            #![trigger spec_pattern_at(p, j)]
            0 <= j <= c - 1 ==> (fs1.contains_key(spec_pattern_at(p, j)) == fs.contains_key(
                spec_pattern_at(p, j),
            ) && (fs.contains_key(spec_pattern_at(p, j)) ==> fs1[spec_pattern_at(p, j)]
                == fs[spec_pattern_at(p, j)])));
        // slot c+1 is outside the recursive shift's range
        assert(forall|j: int| 0 <= j <= c ==> spec_pattern_at(p, c + 1) != #[trigger] spec_pattern_at(p, j));
        if fs.contains_key(spec_pattern_at(p, c)) {
            assert(fs1.contains_key(spec_pattern_at(p, c + 1)));
            assert(fs1[spec_pattern_at(p, c + 1)] == fs[spec_pattern_at(p, c)]);
            assert(fs2.contains_key(spec_pattern_at(p, c + 1)) && fs2[spec_pattern_at(p, c + 1)]
                == fs1[spec_pattern_at(p, c + 1)]);
        }
    }
}

/// The filesystem after one fixed-window roll and the reopen of the active
/// path.
pub open spec fn spec_roll_result(fs: FsModel, w: FixedWindow, path: Seq<char>) -> FsModel {
    fs_reopen(apply_renames(fs, spec_roll_renames(w.pattern@, w.last, w.count as int, path)), path)
}

/// The highest slot whose content survives a roll by moving one index up:
/// all occupied slots when the window has room, all but the oldest when it
/// is full (that one is overwritten), none when no slot is occupied yet.
pub open spec fn spec_keep(w: FixedWindow) -> int {
    match w.last {
        None => -1,
        Some(c0) => if c0 + 1 == w.count {
            c0 - 1
        } else {
            c0 as int
        },
    }
}

/// One fixed-window roll, applied to the filesystem model and followed by
/// the reopen of the active path: the active file's content moves to backup
/// slot 0, previously occupied slots move one index up (the window full:
/// all but the oldest, which is overwritten), and the active path is empty
/// again.
pub proof fn lemma_fixed_window_roll(fs: FsModel, w: FixedWindow, path: Seq<char>)
    requires
        w.wf(),
        w.count > 0,
        fs.contains_key(path),
        forall|a: int, b: int|
            0 <= a <= w.count && 0 <= b <= w.count && a != b ==> spec_pattern_at(w.pattern@, a)
                != spec_pattern_at(w.pattern@, b),
        forall|j: int| 0 <= j <= w.count ==> path != spec_pattern_at(w.pattern@, j),
    ensures
        spec_roll_result(fs, w, path).contains_key(path),
        spec_roll_result(fs, w, path)[path] == Seq::<u8>::empty(),
        spec_roll_result(fs, w, path).contains_key(spec_pattern_at(w.pattern@, 0)),
        spec_roll_result(fs, w, path)[spec_pattern_at(w.pattern@, 0)] == fs[path],
        forall|j: int|
            #![trigger spec_pattern_at(w.pattern@, j)]
            0 <= j <= spec_keep(w) && fs.contains_key(spec_pattern_at(w.pattern@, j)) ==> (
            spec_roll_result(fs, w, path).contains_key(spec_pattern_at(w.pattern@, j + 1))
                && spec_roll_result(fs, w, path)[spec_pattern_at(w.pattern@, j + 1)] == fs[
                spec_pattern_at(w.pattern@, j)]),
        forall|q: Seq<char>|
            #![trigger spec_roll_result(fs, w, path).contains_key(q)]
            (q != path && (forall|j: int|
                0 <= j <= spec_keep(w) + 1 ==> q != spec_pattern_at(w.pattern@, j))) ==> (
            spec_roll_result(fs, w, path).contains_key(q) == fs.contains_key(q) && (
            fs.contains_key(q) ==> spec_roll_result(fs, w, path)[q] == fs[q])),
{
    let p = w.pattern@;
    let rs = spec_roll_renames(p, w.last, w.count as int, path);
    let final_op = seq![(path, spec_pattern_at(p, 0))];
    let keep = spec_keep(w);
    if keep < 0 {
        assert(rs =~= final_op);
        let fsa = apply_rename(fs, path, spec_pattern_at(p, 0));
        assert(rs.skip(1) =~= Seq::<(Seq<char>, Seq<char>)>::empty());
        assert(rs[0] == (path, spec_pattern_at(p, 0)));
        assert(apply_renames(fs, rs) == apply_renames(fsa, rs.skip(1)));
        assert(apply_renames(fsa, Seq::<(Seq<char>, Seq<char>)>::empty()) == fsa);
        assert(path != spec_pattern_at(p, 0));
        assert forall|q: Seq<char>|
            q != path && (forall|j: int|
                0 <= j <= spec_keep(w) + 1 ==> q != spec_pattern_at(p, j)) implies (
        spec_roll_result(fs, w, path).contains_key(q) == fs.contains_key(q) && (fs.contains_key(q)
            ==> spec_roll_result(fs, w, path)[q] == fs[q])) by {
            assert(q != spec_pattern_at(p, 0));
        }
    } else {
        assert(rs =~= spec_shift_ops(p, keep) + final_op);
        lemma_shift_contents(fs, p, keep);
        let fs_shift = apply_renames(fs, spec_shift_ops(p, keep));
        lemma_apply_renames_append(fs, spec_shift_ops(p, keep), final_op);
        assert(apply_renames(fs, rs) == apply_renames(fs_shift, final_op));
        // the active path was untouched by the shift
        assert(forall|j: int| 0 <= j <= keep + 1 ==> path != #[trigger] spec_pattern_at(p, j));
        assert(fs_shift.contains_key(path) && fs_shift[path] == fs[path]);
        let fsa = apply_rename(fs_shift, path, spec_pattern_at(p, 0));
        assert(final_op.skip(1) =~= Seq::<(Seq<char>, Seq<char>)>::empty());
        assert(final_op[0] == (path, spec_pattern_at(p, 0)));
        assert(apply_renames(fs_shift, final_op) == apply_renames(fsa, final_op.skip(1)));
        assert(apply_renames(fsa, Seq::<(Seq<char>, Seq<char>)>::empty()) == fsa);
        assert(fsa.contains_key(spec_pattern_at(p, 0)) && fsa[spec_pattern_at(p, 0)] == fs[path]);
        // shifted slots survive the final rename and the reopen
        assert(forall|j: int|
            #![trigger spec_pattern_at(p, j)]
            0 <= j <= keep && fs.contains_key(spec_pattern_at(p, j)) ==> (fsa.contains_key(
                spec_pattern_at(p, j + 1),
            ) && fsa[spec_pattern_at(p, j + 1)] == fs[spec_pattern_at(p, j)]));
        // everything else is untouched by the shift, the rename and the reopen
        assert forall|q: Seq<char>|
            q != path && (forall|j: int|
                0 <= j <= spec_keep(w) + 1 ==> q != spec_pattern_at(p, j)) implies (
        spec_roll_result(fs, w, path).contains_key(q) == fs.contains_key(q) && (fs.contains_key(q)
            ==> spec_roll_result(fs, w, path)[q] == fs[q])) by {
            assert(q != spec_pattern_at(p, 0));
            assert(fs_shift.contains_key(q) == fs.contains_key(q) && (fs.contains_key(q)
                ==> fs_shift[q] == fs[q]));
        }
    }
}

/// How many backup slots the window occupies.
pub open spec fn spec_occupied(w: FixedWindow) -> int {
    match w.last {
        None => 0,
        Some(c0) => c0 + 1,
    }
}

/// The window's record after one roll.
pub open spec fn spec_window_after(w: FixedWindow) -> FixedWindow {
    FixedWindow {
        last: spec_inc_last(w.last, w.count as int),
        count: w.count,
        pattern: w.pattern,
    }
}

/// The backups stand exactly as the window records them: slot `j` holds
/// `contents[j]` for each occupied slot, newest at 0, and no slot beyond
/// them exists.
pub open spec fn window_holds(fs: FsModel, w: FixedWindow, contents: Seq<Seq<u8>>) -> bool {
    &&& contents.len() == spec_occupied(w)
    &&& forall|j: int|
        #![trigger spec_pattern_at(w.pattern@, j)]
        0 <= j < contents.len() ==> fs.contains_key(spec_pattern_at(w.pattern@, j)) && fs[
            spec_pattern_at(w.pattern@, j)] == contents[j]
    &&& forall|j: int|
        #![trigger spec_pattern_at(w.pattern@, j)]
        contents.len() <= j < w.count ==> !fs.contains_key(spec_pattern_at(w.pattern@, j))
}

/// The backup contents after one roll: the rolled active content in front,
/// then the previous backups, the oldest dropped once the window is full.
pub open spec fn spec_contents_after(
    active: Seq<u8>,
    contents: Seq<Seq<u8>>,
    count: int,
) -> Seq<Seq<u8>> {
    if contents.len() < count {
        seq![active] + contents
    } else {
        seq![active] + contents.take(count - 1)
    }
}

/// Rotation correctness, one roll at a time: when the backups stand as the
/// window records them, one roll leaves them so again — the active file's
/// content enters at slot 0, every kept backup moves one slot up, the count
/// of backups grows by one until the window is full, and from then on the
/// oldest content is evicted. The active path is empty again afterwards.
pub proof fn lemma_window_roll_preserves(
    fs: FsModel,
    w: FixedWindow,
    path: Seq<char>,
    contents: Seq<Seq<u8>>,
)
    requires
        w.wf(),
        w.count > 0,
        fs.contains_key(path),
        forall|a: int, b: int|
            0 <= a <= w.count && 0 <= b <= w.count && a != b ==> spec_pattern_at(w.pattern@, a)
                != spec_pattern_at(w.pattern@, b),
        forall|j: int| 0 <= j <= w.count ==> path != spec_pattern_at(w.pattern@, j),
        window_holds(fs, w, contents),
    ensures
        window_holds(
            spec_roll_result(fs, w, path),
            spec_window_after(w),
            spec_contents_after(fs[path], contents, w.count as int),
        ),
        spec_roll_result(fs, w, path)[path] == Seq::<u8>::empty(),
{
    lemma_fixed_window_roll(fs, w, path);
    let p = w.pattern@;
    let fs2 = spec_roll_result(fs, w, path);
    let keep = spec_keep(w);
    let occ = spec_occupied(w);
    let contents2 = spec_contents_after(fs[path], contents, w.count as int);
    let occ2 = spec_occupied(spec_window_after(w));
    assert(contents2.len() == occ2);
    // every new slot holds what the record says
    assert forall|j: int| 0 <= j < contents2.len() implies fs2.contains_key(
        #[trigger] spec_pattern_at(p, j),
    ) && fs2[spec_pattern_at(p, j)] == contents2[j] by {
        if j == 0 {
            assert(fs2[spec_pattern_at(p, 0)] == fs[path]);
        } else {
            // slot j came from slot j - 1
            assert(0 <= j - 1 <= keep);
            assert(fs.contains_key(spec_pattern_at(p, j - 1)));
            assert(fs2[spec_pattern_at(p, j)] == fs[spec_pattern_at(p, j - 1)]);
            assert(contents2[j] == contents[j - 1]);
        }
    }
    // no slot beyond the record exists
    assert forall|j: int| contents2.len() <= j < w.count implies !fs2.contains_key(
        #[trigger] spec_pattern_at(p, j),
    ) by {
        assert(j >= keep + 2);
        assert(path != spec_pattern_at(p, j));
        assert(forall|x: int|
            0 <= x <= keep + 1 ==> spec_pattern_at(p, j) != #[trigger] spec_pattern_at(p, x));
        assert(fs2.contains_key(spec_pattern_at(p, j)) == fs.contains_key(spec_pattern_at(p, j)));
        assert(occ <= j);
        assert(!fs.contains_key(spec_pattern_at(p, j)));
    }
}

/// Applying a concatenation of rename lists is applying one then the other.
proof fn lemma_apply_renames_append(
    fs: FsModel,
    xs: Seq<(Seq<char>, Seq<char>)>,
    ys: Seq<(Seq<char>, Seq<char>)>,
)
    ensures
        apply_renames(fs, xs + ys) == apply_renames(apply_renames(fs, xs), ys),
    decreases xs.len(),
{
    if xs.len() == 0 {
        assert(xs + ys =~= ys);
    } else {
        let fs1 = apply_rename(fs, xs[0].0, xs[0].1);
        assert((xs + ys).skip(1) =~= xs.skip(1) + ys);
        lemma_apply_renames_append(fs1, xs.skip(1), ys);
    }
}

/// With the delete roller, the active file after a roll holds exactly the
/// bytes written after the roll: never a mix of earlier content.
pub proof fn lemma_delete_roll_fresh(fs: FsModel, path: Seq<char>, w: Seq<u8>)
    ensures
        ({
            let fs1 = fs_reopen(fs.remove(path), path);
            let fs2 = fs_append(fs1, path, w);
            fs2[path] == w
        }),
{
}

/// After a remount of a path that no longer resolves (the backing file was
/// moved or removed), the file holds exactly the bytes written after the
/// correction: nothing written before the move can appear.
pub proof fn lemma_remount_fresh(fs: FsModel, path: Seq<char>, w: Seq<u8>)
    requires
        !fs.contains_key(path),
    ensures
        ({
            let fs1 = fs_reopen(fs, path);
            let fs2 = fs_append(fs1, path, w);
            fs2[path] == w
        }),
{
}

} // verus!
