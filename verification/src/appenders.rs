//! Runtime sinks: the states of console, file and rolling-file appenders,
//! and the named registry routes write through. The byte-level handles live
//! with the embedding; everything the engine decides about them is here.
use vstd::prelude::*;

use crate::chars::{spec_replace, chars_of, replace_chars, string_of};
use crate::config::{
    spec_size_err, spec_size_ok, spec_size_value, AppenderId, ConfigError, Policy,
};
use crate::paths::{file_name_of, join_of, parent_of, path_file_name, path_join, path_parent};
use crate::rolling::{spec_write_step, FsOp, Roller, Rolling, Trigger};

verus! {

/// The sink that writes to the process's standard output: no rotation, no
/// path correction.
#[derive(Clone, Debug)]
pub struct Console;

impl Console {
    pub fn new() -> (r: Self)
        ensures
            r == Console,
    {
        Console
    }
}

/// The state of a plain file sink: the path it writes to. The open handle is
/// the embedding's; remount decisions are taken on file identities.
#[derive(Clone, Debug)]
pub struct File {
    pub path: String,
}

impl File {
    pub fn new(path: String) -> (r: Self)
        ensures
            r.path == path,
    {
        File { path }
    }

    /// The target path as a string.
    pub fn path_str(&self) -> (r: &str)
        ensures
            r@ == self.path@,
    {
        self.path.as_str()
    }
}

/// The parent directory a roll pattern is anchored in: the active file's
/// parent, or the root when it has none.
pub open spec fn spec_parent_or_root(path: Seq<char>) -> Seq<char> {
    match parent_of(path) {
        Some(p) => p,
        None => "/"@,
    }
}

/// The file-name part the default pattern names, `log` when the path has
/// none.
pub open spec fn spec_file_name_or_default(path: Seq<char>) -> Seq<char> {
    match file_name_of(path) {
        Some(f) => f,
        None => "log"@,
    }
}

/// The roll pattern for an active path: a caller-supplied pattern is joined
/// to the path's parent (never treated as absolute); without one the
/// default `{filename}.{}` takes the path's file name.
pub open spec fn spec_qualified_pattern(path: Seq<char>, pat_opt: Option<Seq<char>>) -> Seq<char> {
    let parent = spec_parent_or_root(path);
    match pat_opt {
        Some(pt) => join_of(parent, pt),
        None => join_of(
            parent,
            spec_replace("{filename}.{}"@, "{filename}"@, spec_file_name_or_default(path)),
        ),
    }
}

/// Builds the roll pattern the roller uses for files rolled out of `path`.
pub fn make_qualified_pattern(path: &str, pat_opt: Option<&str>) -> (r: String)
    ensures
        r@ == spec_qualified_pattern(
            path@,
            match pat_opt {
                Some(pt) => Some(pt@),
                None => None,
            },
        ),
{
    let parent: String = match path_parent(path) {
        Some(p) => p,
        None => {
            let mut root: Vec<char> = Vec::new();
            root.push('/');
            proof {
                reveal_strlit("/");
                assert(root@ =~= "/"@);
            }
            string_of(&root)
        },
    };
    match pat_opt {
        Some(pt) => path_join(parent.as_str(), pt),
        None => {
            let file_name: String = match path_file_name(path) {
                Some(f) => f,
                None => {
                    let mut d: Vec<char> = Vec::new();
                    d.push('l');
                    d.push('o');
                    d.push('g');
                    proof {
                        reveal_strlit("log");
                        assert(d@ =~= "log"@);
                    }
                    string_of(&d)
                },
            };
            let template = chars_of("{filename}.{}");
            let token = chars_of("{filename}");
            let name_chars = chars_of(file_name.as_str());
            proof {
                reveal_strlit("{filename}.{}");
                reveal_strlit("{filename}");
                assert(token@.len() > 0);
            }
            let pattern = replace_chars(&template, &token, &name_chars);
            let pattern_str = string_of(&pattern);
            path_join(parent.as_str(), pattern_str.as_str())
        },
    }
}

/// One configured sink at runtime.
pub enum Appender {
    /// Rendered lines go to standard output.
    Console(Console),
    /// Lines are appended to one file.
    File(File),
    /// Lines are appended to a file that rolls by size.
    RollingFile(Rolling),
    /// Lines are accepted and discarded.
    Null,
}

impl Appender {
    /// A rolling appender's policy state is sound.
    pub open spec fn wf(self) -> bool {
        self matches Appender::RollingFile(r) ==> r.wf()
    }

    pub fn new_null() -> (r: Self)
        ensures
            r is Null,
            r.wf(),
    {
        Appender::Null
    }

    pub fn new_console() -> (r: Self)
        ensures
            r is Console,
            r.wf(),
    {
        Appender::Console(Console::new())
    }

    pub fn new_file(path: String) -> (r: Self)
        ensures
            r matches Appender::File(f) && f.path == path,
            r.wf(),
    {
        Appender::File(File::new(path))
    }

    /// Builds a rolling-file appender's state from its policy: the size
    /// string becomes the trigger's byte limit, a zero backup count means
    /// delete-on-roll, and the roll pattern is anchored beside the active
    /// file. `initial_len` is the real length found at the (already
    /// resolved) path when the embedding opened it.
    pub fn new_rolling(
        path: &str,
        pattern_opt: Option<&str>,
        count: usize,
        size: &str,
        initial_len: u64,
    ) -> (r: Result<Self, ConfigError>)
        ensures
            !spec_size_ok(size@) ==> (r matches Err(e) && spec_size_err(size@, e)),
            spec_size_ok(size@) ==> (r matches Ok(a) && a matches Appender::RollingFile(roll) && {
                &&& roll.wf()
                &&& roll.path@ == path@
                &&& roll.writer_open
                &&& roll.meta.est_len == initial_len
                &&& roll.trigger == (Trigger::Size { limit: spec_size_value(size@) as u64 })
                &&& if count == 0 {
                    roll.roller is Delete
                } else {
                    roll.roller matches Roller::FixedWindow(w) && w.last is None && w.count
                        == count && w.pattern@ == spec_qualified_pattern(
                        path@,
                        match pattern_opt {
                            Some(pt) => Some(pt@),
                            None => None,
                        },
                    )
                }
            }),
    {
        let limit = match Policy::calculate_maximum_file_size(size) {
            Ok(l) => l,
            Err(e) => {
                return Err(e);
            },
        };
        let pattern = make_qualified_pattern(path, pattern_opt);
        let roller = if count == 0 {
            Roller::Delete
        } else {
            Roller::new_fixed(pattern, count)
        };
        let path_string = String::from_str(path);
        Ok(Appender::RollingFile(Rolling::new(path_string, initial_len, Trigger::Size { limit }, roller)))
    }

    /// Accounts one completed write: only a rolling appender may answer with
    /// a roll plan for the embedding to execute.
    pub fn on_write(&mut self, written: usize) -> (r: Option<Vec<FsOp>>)
        requires
            old(self).wf(),
            (*old(self)) matches Appender::RollingFile(roll) ==> roll.writer_open,
        ensures
            final(self).wf(),
            !(*old(self) is RollingFile) ==> r is None && *final(self) == *old(self),
            (*old(self)) matches Appender::RollingFile(before) ==> (*final(self)) matches
                Appender::RollingFile(after) && spec_write_step(
                before,
                after,
                written as int,
                match r {
                    Some(ops) => Some(ops@),
                    None => None,
                },
            ),
    {
        match self {
            Appender::RollingFile(roll) => roll.on_write(written),
            _ => None,
        }
    }
}

/// The named registry of sinks: an association list from appender id to
/// sink state, cheap to hand around, with first-match lookup.
pub struct Appenders {
    pub items: Vec<(AppenderId, Appender)>,
}

impl Appenders {
    /// Ids are unique and every sink state is sound.
    pub open spec fn wf(self) -> bool {
        &&& forall|i: int, j: int|
            0 <= i < j < self.items@.len() ==> self.items@[i].0.0@ != self.items@[j].0.0@
        &&& forall|i: int| 0 <= i < self.items@.len() ==> (#[trigger] self.items@[i].1).wf()
    }

    pub fn new(items: Vec<(AppenderId, Appender)>) -> (r: Self)
        ensures
            r.items == items,
    {
        Appenders { items }
    }

    /// The index of the sink registered under `id`, if any: the first entry
    /// whose id matches.
    pub fn get(&self, id: &str) -> (r: Option<usize>)
        ensures
            match r {
                Some(x) => x < self.items@.len() && self.items@[x as int].0.0@ == id@ && forall|
                    j: int,
                |
                    0 <= j < x ==> self.items@[j].0.0@ != id@,
                None => forall|j: int|
                    0 <= j < self.items@.len() ==> self.items@[j].0.0@ != id@,
            },
    {
        let n = self.items.len();
        let mut i: usize = 0;
        while i < n
            invariant
                n == self.items@.len(),
                i <= n,
                forall|j: int| 0 <= j < i ==> self.items@[j].0.0@ != id@,
            decreases n - i,
        {
            if crate::chars::str_eq(self.items[i].0.0.as_str(), id) {
                return Some(i);
            }
            i = i + 1;
        }
        None
    }

    /// How many sinks are registered.
    pub fn len(&self) -> (r: usize)
        ensures
            r == self.items@.len(),
    {
        self.items.len()
    }
}

} // verus!
