//! Route resolution: matching an event's target and severity against the
//! configured routes, with most-specific-wins union semantics and a default
//! route that fires only when no specific route matched.
use vstd::prelude::*;

use crate::chars::starts_with;
use crate::config::{AppenderId, Config, Format, Target};
use crate::level::LevelFilter;
use crate::template::{
    field_views, spec_compile, spec_render, FieldValues, Fmtr,
};

verus! {

/// Is `p` a prefix of `s`?
pub open spec fn spec_is_prefix(p: Seq<char>, s: Seq<char>) -> bool {
    p.len() <= s.len() && p == s.take(p.len() as int)
}

/// The six field names a custom template may use.
pub open spec fn spec_field_set() -> Seq<Seq<char>> {
    seq!["T"@, "T(utc)"@, "t"@, "m"@, "f"@, "l"@]
}

/// The known field set handed to template compilation.
pub fn field_set() -> (r: Vec<&'static str>)
    ensures
        field_views(r@) == spec_field_set(),
{
    let mut r: Vec<&'static str> = Vec::new();
    r.push("T");
    r.push("T(utc)");
    r.push("t");
    r.push("m");
    r.push("f");
    r.push("l");
    proof {
        assert(field_views(r@) =~= spec_field_set());
    }
    r
}

/// How a route renders events once configured: the framework-default form,
/// the bare message, or a compiled custom template.
pub enum EventFormatter {
    Normal,
    MessageOnly,
    Custom(Fmtr),
}

/// Does the runtime formatter `r` stand for the configured format `f`? A
/// custom format string that compiles yields its compiled template; one
/// that does not falls back to the default renderer.
pub open spec fn spec_formatter_of(f: Format, r: EventFormatter) -> bool {
    match f {
        Format::Normal => r is Normal,
        Format::MessageOnly => r is MessageOnly,
        Format::Custom(cs) => match spec_compile(cs@, spec_field_set()) {
            Ok(spans) => r matches EventFormatter::Custom(fm) && fm.chars() == cs@
                && fm.fields_model() == spans,
            Err(_) => r is Normal,
        },
    }
}

/// What line a formatter produces for the given field values: `None` for
/// the framework-default renderer, the bare message with a newline, or the
/// compiled template's rendering.
pub open spec fn spec_line_of(f: EventFormatter, v: FieldValues, line: Option<Seq<char>>) -> bool {
    match f {
        EventFormatter::Normal => line is None,
        EventFormatter::MessageOnly => line matches Some(s) && s == v.message@.push('\n'),
        EventFormatter::Custom(fm) => line matches Some(s) && s == spec_render(
            fm.chars(),
            fm.fields_model(),
            v,
        ),
    }
}

impl EventFormatter {
    /// A custom formatter always holds a sound compiled template.
    pub open spec fn wf(self) -> bool {
        self matches EventFormatter::Custom(f) ==> f.wf()
    }

    /// Builds the formatter a configured format stands for. A custom format
    /// string that does not compile falls back to the default renderer
    /// rather than failing configuration.
    pub fn from_format(f: &Format) -> (r: EventFormatter)
        ensures
            r.wf(),
            spec_formatter_of(*f, r),
    {
        match f {
            Format::Normal => EventFormatter::Normal,
            Format::MessageOnly => EventFormatter::MessageOnly,
            Format::Custom(cs) => {
                let fields = field_set();
                match Fmtr::new(cs.as_str(), &fields) {
                    Ok(fm) => EventFormatter::Custom(fm),
                    Err(_) => EventFormatter::Normal,
                }
            },
        }
    }

    /// Renders one event as a line of text. `None` means the route uses the
    /// default structured renderer, which the embedding supplies.
    pub fn format_line(&self, values: &FieldValues) -> (r: Option<String>)
        requires
            self.wf(),
        ensures
            spec_line_of(
                *self,
                *values,
                match r {
                    Some(s) => Some(s@),
                    None => None,
                },
            ),
    {
        match self {
            EventFormatter::Normal => None,
            EventFormatter::MessageOnly => {
                let mut out = crate::chars::chars_of(values.message.as_str());
                out.push('\n');
                Some(crate::chars::string_of(&out))
            },
            EventFormatter::Custom(f) => Some(f.write(values)),
        }
    }
}

/// One route: an optional target prefix, a severity threshold, the appenders
/// it writes to, and how it renders.
pub struct Logger {
    pub level: LevelFilter,
    pub target: Option<Target>,
    pub appenders: Vec<AppenderId>,
    pub format: EventFormatter,
}

impl Logger {
    /// Does an event at `level` with `target` match this route? Both checks
    /// together: the severity passes the threshold, and the route's target,
    /// if any, is a prefix of the event's target.
    pub open spec fn spec_enabled(self, level: LevelFilter, target: Seq<char>) -> bool {
        &&& level.verbosity() <= self.level.verbosity()
        &&& (self.target matches Some(t) ==> spec_is_prefix(t.0@, target))
    }

    /// A route holding a sound formatter.
    pub open spec fn wf(self) -> bool {
        self.format.wf()
    }

    pub fn new(
        level: LevelFilter,
        target: Option<Target>,
        appenders: Vec<AppenderId>,
        format: EventFormatter,
    ) -> (r: Logger)
        ensures
            r.level == level,
            r.target == target,
            r.appenders == appenders,
            r.format == format,
    {
        Logger { level, target, appenders, format }
    }

    pub fn is_enabled(&self, level: &LevelFilter, target: &str) -> (r: bool)
        ensures
            r == self.spec_enabled(*level, target@),
    {
        let match_level = level.passes(&self.level);
        let match_target = match &self.target {
            Some(t) => starts_with(target, t.as_str()),
            None => true,
        };
        match_level && match_target
    }
}

/// The indices (ascending) of the routes among the first `k` that match the
/// event.
pub open spec fn matching_upto(
    loggers: Seq<Logger>,
    level: LevelFilter,
    target: Seq<char>,
    k: int,
) -> Seq<usize>
    decreases k,
{
    if k <= 0 {
        Seq::empty()
    } else {
        let p = matching_upto(loggers, level, target, k - 1);
        if loggers[k - 1].spec_enabled(level, target) {
            p.push((k - 1) as usize)
        } else {
            p
        }
    }
}

/// The router: a global switch, the specific routes, and the single default
/// route used when no specific route matches.
pub struct T4Layer {
    pub enabled: bool,
    pub default: Logger,
    pub loggers: Vec<Logger>,
}

/// Which specific routes receive the event: none at all when the router is
/// disabled, else every route whose target prefix and level both match.
pub open spec fn spec_specific(l: T4Layer, level: LevelFilter, target: Seq<char>) -> Seq<usize> {
    if l.enabled {
        matching_upto(l.loggers@, level, target, l.loggers@.len() as int)
    } else {
        Seq::empty()
    }
}

/// Does the default route receive the event? Only when the router is enabled,
/// no specific route matched, and the default's own threshold admits it.
pub open spec fn spec_use_default(l: T4Layer, level: LevelFilter, target: Seq<char>) -> bool {
    l.enabled && spec_specific(l, level, target).len() == 0 && l.default.spec_enabled(
        level,
        target,
    )
}

/// What the router decides for one event.
pub struct RouteDecision {
    pub specific: Vec<usize>,
    pub use_default: bool,
}

impl T4Layer {
    /// Every route of the router holds a sound formatter.
    pub open spec fn wf(self) -> bool {
        &&& self.default.wf()
        &&& forall|j: int| 0 <= j < self.loggers@.len() ==> (#[trigger] self.loggers@[j]).wf()
    }

    pub fn new(default: Logger, loggers: Vec<Logger>) -> (r: T4Layer)
        ensures
            r.enabled,
            r.default == default,
            r.loggers == loggers,
    {
        T4Layer { enabled: true, default, loggers }
    }

    /// Silences the router entirely; the configuration is kept.
    pub fn disable(&mut self)
        ensures
            !final(self).enabled,
            final(self).default == old(self).default,
            final(self).loggers == old(self).loggers,
    {
        self.enabled = false;
    }

    /// Lifts the global silence; routing resumes exactly as configured.
    pub fn enable(&mut self)
        ensures
            final(self).enabled,
            final(self).default == old(self).default,
            final(self).loggers == old(self).loggers,
    {
        self.enabled = true;
    }

    /// Decides which routes receive an event at `level` with `target`: the
    /// ascending indices of all matching specific routes, and whether the
    /// default route fires instead.
    pub fn route_event(&self, level: &LevelFilter, target: &str) -> (r: RouteDecision)
        ensures
            r.specific@ == spec_specific(*self, *level, target@),
            r.use_default == spec_use_default(*self, *level, target@),
    {
        let mut specific: Vec<usize> = Vec::new();
        if !self.enabled {
            return RouteDecision { specific, use_default: false };
        }
        let n = self.loggers.len();
        let mut j: usize = 0;
        while j < n
            invariant
                n == self.loggers@.len(),
                j <= n,
                self.enabled,
                specific@ == matching_upto(self.loggers@, *level, target@, j as int),
            decreases n - j,
        {
            if self.loggers[j].is_enabled(level, target) {
                specific.push(j);
            }
            j = j + 1;
        }
        let use_default = specific.len() == 0 && self.default.is_enabled(level, target);
        RouteDecision { specific, use_default }
    }
}

/// A fresh copy of a route's appender-id list, element for element.
fn clone_ids(v: &Vec<AppenderId>) -> (r: Vec<AppenderId>)
    ensures
        r@ == v@,
{
    let mut r: Vec<AppenderId> = Vec::new();
    let mut i: usize = 0;
    while i < v.len()
        invariant
            i <= v@.len(),
            r@ == v@.take(i as int),
        decreases v@.len() - i,
    {
        let id = AppenderId(v[i].0.clone());
        proof {
            assert(id == v@[i as int]);
        }
        r.push(id);
        i = i + 1;
        proof {
            assert(r@ =~= v@.take(i as int));
        }
    }
    proof {
        assert(r@ =~= v@);
    }
    r
}

/// Does the runtime route `r` stand for the configured route, with the given
/// target?
pub open spec fn spec_route_of(
    cfg: crate::config::Logger,
    target: Option<Target>,
    r: Logger,
) -> bool {
    &&& r.level == cfg.level
    &&& match (r.target, target) {
        (Some(rt), Some(t)) => rt.0@ == t.0@,
        (None, None) => true,
        _ => false,
    }
    &&& r.appenders@ == cfg.appenders@
    &&& spec_formatter_of(cfg.format, r.format)
}

impl T4Layer {
    /// Builds the router a configuration describes: one specific route per
    /// configured target, in order, and the configured default route.
    pub fn from_config(config: &Config) -> (r: T4Layer)
        ensures
            r.enabled,
            r.wf(),
            spec_route_of(config.default, None, r.default),
            r.loggers@.len() == config.loggers@.len(),
            forall|j: int|
                0 <= j < config.loggers@.len() ==> spec_route_of(
                    config.loggers@[j].1,
                    Some(config.loggers@[j].0),
                    #[trigger] r.loggers@[j],
                ),
    {
        let n = config.loggers.len();
        let mut loggers: Vec<Logger> = Vec::new();
        let mut j: usize = 0;
        while j < n
            invariant
                n == config.loggers@.len(),
                j <= n,
                loggers@.len() == j,
                forall|q: int|
                    0 <= q < j ==> spec_route_of(
                        config.loggers@[q].1,
                        Some(config.loggers@[q].0),
                        #[trigger] loggers@[q],
                    ),
                forall|q: int| 0 <= q < j ==> (#[trigger] loggers@[q]).wf(),
            decreases n - j,
        {
            let (target, cfg) = &config.loggers[j];
            let route = Logger {
                level: cfg.level,
                target: Some(Target(target.0.clone())),
                appenders: clone_ids(&cfg.appenders),
                format: EventFormatter::from_format(&cfg.format),
            };
            loggers.push(route);
            j = j + 1;
        }
        let default = Logger {
            level: config.default.level,
            target: None,
            appenders: clone_ids(&config.default.appenders),
            format: EventFormatter::from_format(&config.default.format),
        };
        T4Layer { enabled: true, default, loggers }
    }

    /// The router of the console configuration: `Info` and above, rendered
    /// by the default renderer, to the sink named `stdout`.
    pub fn default_console() -> (r: T4Layer)
        ensures
            r.enabled,
            r.wf(),
            r.default.level == LevelFilter::Info,
            r.default.target is None,
            r.default.format is Normal,
            r.default.appenders@.len() == 1 && r.default.appenders@[0].0@ == "stdout"@,
            r.loggers@.len() == 0,
    {
        let mut ids: Vec<AppenderId> = Vec::new();
        ids.push(AppenderId(String::from_str("stdout")));
        let default = Logger {
            level: LevelFilter::Info,
            target: None,
            appenders: ids,
            format: EventFormatter::Normal,
        };
        T4Layer { enabled: true, default, loggers: Vec::new() }
    }
}

/// Every index the matching scan selects lies below its bound.
proof fn lemma_matching_upto_bounds(
    loggers: Seq<Logger>,
    level: LevelFilter,
    target: Seq<char>,
    k: int,
)
    ensures
        forall|q: int|
            0 <= q < matching_upto(loggers, level, target, k).len()
                ==> #[trigger] matching_upto(loggers, level, target, k)[q] < k,
    decreases k,
{
    if k > 0 {
        lemma_matching_upto_bounds(loggers, level, target, k - 1);
        let p = matching_upto(loggers, level, target, k - 1);
        let cur = matching_upto(loggers, level, target, k);
        if loggers[k - 1].spec_enabled(level, target) {
            assert(cur == p.push((k - 1) as usize));
            assert forall|q: int| 0 <= q < cur.len() implies #[trigger] cur[q] < k by {
                if q < p.len() {
                    assert(cur[q] == p[q]);
                } else {
                    assert(cur[q] == (k - 1) as usize);
                }
            }
        }
    }
}

/// Membership in the matching scan: exactly the routes enabled for the
/// event, among those scanned so far.
proof fn lemma_matching_upto_contains(
    loggers: Seq<Logger>,
    level: LevelFilter,
    target: Seq<char>,
    k: int,
    j: int,
)
    requires
        0 <= j < k <= loggers.len(),
        loggers.len() <= usize::MAX,
    ensures
        matching_upto(loggers, level, target, k).contains(j as usize) <==> loggers[j].spec_enabled(
            level,
            target,
        ),
    decreases k,
{
    lemma_matching_upto_bounds(loggers, level, target, k - 1);
    let p = matching_upto(loggers, level, target, k - 1);
    let cur = matching_upto(loggers, level, target, k);
    if j == k - 1 {
        if loggers[j].spec_enabled(level, target) {
            assert(cur == p.push(j as usize));
            assert(cur[p.len() as int] == j as usize);
            assert(cur.contains(j as usize));
        } else {
            assert(cur == p);
            if cur.contains(j as usize) {
                let x = choose|x: int| 0 <= x < cur.len() && cur[x] == j as usize;
                assert(p[x] == cur[x]);
                assert(cur[x] < k - 1);
                assert(false);
            }
        }
    } else {
        lemma_matching_upto_contains(loggers, level, target, k - 1, j);
        if loggers[k - 1].spec_enabled(level, target) {
            assert(cur == p.push((k - 1) as usize));
            if p.contains(j as usize) {
                let x = choose|x: int| 0 <= x < p.len() && p[x] == j as usize;
                assert(cur[x] == j as usize);
                assert(cur.contains(j as usize));
            }
            if cur.contains(j as usize) {
                let x = choose|x: int| 0 <= x < cur.len() && cur[x] == j as usize;
                assert(cur[p.len() as int] == (k - 1) as usize);
                assert(x < p.len());
                assert(p[x] == cur[x]);
                assert(p.contains(j as usize));
            }
        } else {
            assert(cur == p);
        }
    }
}

/// First-match-union semantics, stated whole: while the router is enabled,
/// an event is delivered to exactly those specific routes whose target
/// prefix and severity threshold both admit it — every one of them, and no
/// other.
pub proof fn lemma_specific_is_exactly_the_matching_routes(
    l: T4Layer,
    level: LevelFilter,
    target: Seq<char>,
    j: int,
)
    requires
        l.enabled,
        0 <= j < l.loggers@.len(),
    ensures
        spec_specific(l, level, target).contains(j as usize) <==> l.loggers@[j].spec_enabled(
            level,
            target,
        ),
{
    broadcast use vstd::std_specs::vec::axiom_spec_len;

    assert(vstd::std_specs::vec::spec_vec_len(&l.loggers) == l.loggers@.len());
    lemma_matching_upto_contains(l.loggers@, level, target, l.loggers@.len() as int, j);
}

/// One write the dispatcher owes for an event: the appenders of one matched
/// route and the rendered line (`None`: the framework-default renderer).
pub struct DispatchLine {
    pub appenders: Vec<AppenderId>,
    pub line: Option<String>,
}

/// The view of a planned line.
pub open spec fn spec_line_view(d: DispatchLine) -> Option<Seq<char>> {
    match d.line {
        Some(s) => Some(s@),
        None => None,
    }
}

impl T4Layer {
    /// The whole per-event decision: one planned write per matching specific
    /// route, in route order, and one for the default route exactly when it
    /// fires. Each carries the route's appender names and its rendered line.
    pub fn plan_event(&self, level: &LevelFilter, target: &str, values: &FieldValues) -> (r: Vec<
        DispatchLine,
    >)
        requires
            self.wf(),
        ensures
            ({
                let specific = spec_specific(*self, *level, target@);
                let with_default: int = if spec_use_default(*self, *level, target@) {
                    1
                } else {
                    0
                };
                &&& r@.len() == specific.len() + with_default
                &&& forall|k: int|
                    0 <= k < specific.len() ==> {
                        &&& (#[trigger] r@[k]).appenders@ == self.loggers@[specific[k] as int].appenders@
                        &&& spec_line_of(
                            self.loggers@[specific[k] as int].format,
                            *values,
                            spec_line_view(r@[k]),
                        )
                    }
                &&& spec_use_default(*self, *level, target@) ==> {
                    &&& r@.last().appenders@ == self.default.appenders@
                    &&& spec_line_of(self.default.format, *values, spec_line_view(r@.last()))
                }
            }),
    {
        let decision = self.route_event(level, target);
        let ghost specific = spec_specific(*self, *level, target@);
        proof {
            lemma_matching_upto_bounds(
                self.loggers@,
                *level,
                target@,
                self.loggers@.len() as int,
            );
        }
        let mut r: Vec<DispatchLine> = Vec::new();
        let n = decision.specific.len();
        let mut k: usize = 0;
        while k < n
            invariant
                self.wf(),
                decision.specific@ == specific,
                specific == spec_specific(*self, *level, target@),
                n == specific.len(),
                k <= n,
                r@.len() == k,
                forall|q: int|
                    0 <= q < specific.len() ==> specific[q] < self.loggers@.len(),
                forall|q: int|
                    0 <= q < k ==> {
                        &&& (#[trigger] r@[q]).appenders@ == self.loggers@[specific[q] as int].appenders@
                        &&& spec_line_of(
                            self.loggers@[specific[q] as int].format,
                            *values,
                            spec_line_view(r@[q]),
                        )
                    },
            decreases n - k,
        {
            let idx = decision.specific[k];
            let route = &self.loggers[idx];
            let line = route.format.format_line(values);
            r.push(DispatchLine { appenders: clone_ids(&route.appenders), line });
            k = k + 1;
        }
        if decision.use_default {
            let line = self.default.format.format_line(values);
            r.push(DispatchLine { appenders: clone_ids(&self.default.appenders), line });
        }
        r
    }
}

/// While the router is disabled no event reaches any sink: no specific route
/// is selected and the default route does not fire, whatever the
/// configuration and whatever the event.
pub proof fn lemma_disabled_silences(l: T4Layer, level: LevelFilter, target: Seq<char>)
    requires
        !l.enabled,
    ensures
        spec_specific(l, level, target) == Seq::<usize>::empty(),
        !spec_use_default(l, level, target),
{
}

/// Disabling and then enabling a router restores routing exactly as
/// configured: every event is decided as it was before, nothing is replayed.
pub proof fn lemma_enable_restores(
    before: T4Layer,
    disabled: T4Layer,
    after: T4Layer,
    level: LevelFilter,
    target: Seq<char>,
)
    requires
        before.enabled,
        !disabled.enabled,
        disabled.default == before.default,
        disabled.loggers == before.loggers,
        after.enabled,
        after.default == disabled.default,
        after.loggers == disabled.loggers,
    ensures
        spec_specific(after, level, target) == spec_specific(before, level, target),
        spec_use_default(after, level, target) == spec_use_default(before, level, target),
{
}

} // verus!
