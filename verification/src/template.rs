//! The `{field}` template mini-language: compiled once by a single
//! left-to-right scan, then rendered in one forward pass.
use vstd::prelude::*;

use crate::chars::{chars_of, string_of};

verus! {

/// An error found while compiling a format string.
#[derive(Clone, Debug)]
pub enum Error {
    /// A character that may not appear where it was found; holds the
    /// character and a diagnostic note.
    IllegalCharacter(char, String),
    /// A field name not in the known set; holds the name.
    UnknownField(String),
    /// `{}` with nothing between the braces.
    EmptyField,
}

/// The spec-level shape of a compile error.
pub enum ScanError {
    Illegal(char),
    Unknown(Seq<char>),
    Empty,
}

/// Does the executable error carry the outcome the scan specifies?
pub open spec fn err_matches(e: Error, m: ScanError) -> bool {
    match m {
        ScanError::Illegal(c) => e matches Error::IllegalCharacter(c2, _) && c2 == c,
        ScanError::Unknown(n) => e matches Error::UnknownField(u) && u@ == n,
        ScanError::Empty => e matches Error::EmptyField,
    }
}

/// The views of a set of known field names.
pub open spec fn field_views(fs: Seq<&'static str>) -> Seq<Seq<char>> {
    Seq::new(fs.len(), |i: int| fs[i]@)
}

/// Is `name` one of the known fields?
pub open spec fn contains_name(fields: Seq<Seq<char>>, name: Seq<char>) -> bool {
    exists|j: int| 0 <= j < fields.len() && fields[j] == name
}

/// One compiled field span: the inclusive character range of `{name}` in the
/// format string, and the name between the braces.
pub type Span = (int, int, Seq<char>);

/// The scan over the format string, one character at a time. `start` is the
/// index of the `{` of an open field span, `esc` says the previous character
/// was an unconsumed escape `\`, and `acc` holds the spans found so far.
/// An unclosed span at the end of the string is dropped, not an error.
pub open spec fn spec_compile_at(
    s: Seq<char>,
    i: int,
    start: Option<int>,
    esc: bool,
    acc: Seq<Span>,
    fields: Seq<Seq<char>>,
) -> Result<Seq<Span>, ScanError>
    decreases s.len() - i,
{
    if i < 0 || i >= s.len() {
        Ok(acc)
    } else {
        let c = s[i];
        match start {
            Some(st) => {
                if c == '{' || c == '\\' {
                    Err(ScanError::Illegal(c))
                } else if c == '}' {
                    if st + 1 == i {
                        Err(ScanError::Empty)
                    } else {
                        let name = s.subrange(st + 1, i);
                        if contains_name(fields, name) {
                            spec_compile_at(s, i + 1, None, false, acc.push((st, i, name)), fields)
                        } else {
                            Err(ScanError::Unknown(name))
                        }
                    }
                } else {
                    spec_compile_at(s, i + 1, Some(st), false, acc, fields)
                }
            },
            None => {
                if c == '\\' {
                    spec_compile_at(s, i + 1, None, true, acc, fields)
                } else if !esc && c == '}' {
                    Err(ScanError::Illegal('}'))
                } else if !esc && c == '{' {
                    spec_compile_at(s, i + 1, Some(i as int), false, acc, fields)
                } else {
                    spec_compile_at(s, i + 1, None, false, acc, fields)
                }
            },
        }
    }
}

/// What compiling a whole format string yields.
pub open spec fn spec_compile(s: Seq<char>, fields: Seq<Seq<char>>) -> Result<Seq<Span>, ScanError> {
    spec_compile_at(s, 0, None, false, Seq::empty(), fields)
}

/// The spans a range vector and a name vector stand for.
pub open spec fn model_of(ranges: Seq<(usize, usize)>, names: Seq<&'static str>) -> Seq<Span> {
    Seq::new(ranges.len(), |k: int| (ranges[k].0 as int, ranges[k].1 as int, names[k]@))
}

/// A compiled format string: its characters plus the ordered,
/// non-overlapping field spans found in them.
pub struct Fmtr {
    fmt_chars: Vec<char>,
    field_ranges: Vec<(usize, usize)>,
    field_names: Vec<&'static str>,
}

impl Fmtr {
    /// The characters of the format string this was compiled from.
    pub closed spec fn chars(self) -> Seq<char> {
        self.fmt_chars@
    }

    /// The compiled spans, each an inclusive brace range with its field name.
    pub closed spec fn fields_model(self) -> Seq<Span> {
        model_of(self.field_ranges@, self.field_names@)
    }

    /// Structural soundness of the spans: in bounds, ordered, non-empty, and
    /// each name is exactly the text between its braces.
    pub closed spec fn wf(self) -> bool {
        &&& self.field_ranges@.len() == self.field_names@.len()
        &&& forall|k: int|
            0 <= k < self.field_ranges@.len() ==> {
                &&& 0 <= #[trigger] self.field_ranges@[k].0
                &&& self.field_ranges@[k].0 + 1 < self.field_ranges@[k].1
                &&& self.field_ranges@[k].1 < self.fmt_chars@.len()
                &&& self.field_names@[k]@ == self.fmt_chars@.subrange(
                    self.field_ranges@[k].0 + 1,
                    self.field_ranges@[k].1 as int,
                )
            }
        &&& forall|k: int|
            0 < k < self.field_ranges@.len() ==> #[trigger] self.field_ranges@[k].0
                > self.field_ranges@[k - 1].1
    }

    /// Compiles `fmt_str` against the known `fields`. The result is exactly
    /// what the specification scan yields: the spans on success, the first
    /// scan error otherwise.
    #[verifier::loop_isolation(false)]
    pub fn new(fmt_str: &str, fields: &Vec<&'static str>) -> (r: Result<Fmtr, Error>)
        ensures
            match r {
                Ok(f) => {
                    &&& spec_compile(fmt_str@, field_views(fields@)) matches Ok(spans)
                        && f.fields_model() == spans
                    &&& f.chars() == fmt_str@
                    &&& f.wf()
                },
                Err(e) => spec_compile(fmt_str@, field_views(fields@)) matches Err(m)
                    && err_matches(e, m),
            },
    {
        let v = chars_of(fmt_str);
        let n = v.len();
        let ghost s = fmt_str@;
        let ghost fv = field_views(fields@);

        let mut start: Option<usize> = None;
        let mut esc: bool = false;
        let mut field_ranges: Vec<(usize, usize)> = Vec::new();
        let mut field_names: Vec<&'static str> = Vec::new();
        let mut i: usize = 0;

        proof {
            assert(model_of(field_ranges@, field_names@) =~= Seq::<Span>::empty());
        }
        while i < n
            invariant
                v@ == s,
                s == fmt_str@,
                fv == field_views(fields@),
                n == s.len(),
                i <= n,
                field_ranges@.len() == field_names@.len(),
                spec_compile(s, fv) == spec_compile_at(
                    s,
                    i as int,
                    match start {
                        Some(st) => Some(st as int),
                        None => None,
                    },
                    esc,
                    model_of(field_ranges@, field_names@),
                    fv,
                ),
                forall|k: int|
                    #![trigger field_ranges@[k]]
                    0 <= k < field_ranges@.len() ==> {
                        &&& 0 <= field_ranges@[k].0
                        &&& field_ranges@[k].0 + 1 < field_ranges@[k].1
                        &&& field_ranges@[k].1 < i
                        &&& field_names@[k]@ == s.subrange(
                            field_ranges@[k].0 + 1,
                            field_ranges@[k].1 as int,
                        )
                    },
                forall|k: int|
                    #![trigger field_ranges@[k]]
                    0 < k < field_ranges@.len() ==> field_ranges@[k].0 > field_ranges@[k - 1].1,
                start matches Some(st) ==> st < i && (forall|k: int|
                    #![trigger field_ranges@[k]]
                    0 <= k < field_ranges@.len() ==> field_ranges@[k].1 < st),
            decreases n - i,
        {
            let ghost st0: Option<int> = match start {
                Some(st) => Some(st as int),
                None => None,
            };
            let ghost esc0 = esc;
            let ghost acc0 = model_of(field_ranges@, field_names@);
            let c = v[i];
            match start {
                Some(st) => {
                    if c == '{' || c == '\\' {
                        proof {
                            assert(spec_compile_at(s, i as int, st0, esc0, acc0, fv) == Err::<
                                Seq<Span>,
                                ScanError,
                            >(ScanError::Illegal(c)));
                        }
                        return Err(
                            Error::IllegalCharacter(
                                c,
                                String::from_str("found inside field name block"),
                            ),
                        );
                    } else if c == '}' {
                        if st + 1 == i {
                            proof {
                                assert(spec_compile_at(s, i as int, st0, esc0, acc0, fv) == Err::<
                                    Seq<Span>,
                                    ScanError,
                                >(ScanError::Empty));
                            }
                            return Err(Error::EmptyField);
                        }
                        // the name between the braces
                        let mut name_chars: Vec<char> = Vec::new();
                        let mut j: usize = st + 1;
                        while j < i
                            invariant
                                v@ == s,
                                st + 1 <= j <= i <= s.len(),
                                i < s.len(),
                                name_chars@ == s.subrange(st + 1, j as int),
                            decreases i - j,
                        {
                            name_chars.push(v[j]);
                            j = j + 1;
                            proof {
                                assert(name_chars@ =~= s.subrange(st + 1, j as int));
                            }
                        }
                        let ghost name = s.subrange(st + 1, i as int);
                        // look the name up in the known set
                        let mut found: Option<usize> = None;
                        let mut fj: usize = 0;
                        while fj < fields.len() && found.is_none()
                            invariant
                                fv == field_views(fields@),
                                fj <= fields@.len(),
                                name_chars@ == name,
                                match found {
                                    Some(x) => x < fields@.len() && fields@[x as int]@ == name,
                                    None => forall|q: int|
                                        0 <= q < fj ==> #[trigger] fields@[q]@ != name,
                                },
                            decreases fields@.len() - fj,
                        {
                            if crate::chars::chars_eq_str(&name_chars, fields[fj]) {
                                found = Some(fj);
                            }
                            fj = fj + 1;
                        }
                        match found {
                            Some(x) => {
                                proof {
                                    assert(fv[x as int] == fields@[x as int]@);
                                    assert(contains_name(fv, name));
                                    assert(spec_compile_at(s, i as int, st0, esc0, acc0, fv)
                                        == spec_compile_at(
                                        s,
                                        i + 1,
                                        None,
                                        false,
                                        acc0.push((st as int, i as int, name)),
                                        fv,
                                    ));
                                }
                                let ghost old_ranges = field_ranges@;
                                let ghost old_names = field_names@;
                                field_ranges.push((st, i));
                                field_names.push(fields[x]);
                                start = None;
                                esc = false;
                                proof {
                                    assert(field_ranges@ == old_ranges.push((st, i)));
                                    assert(field_names@ == old_names.push(fields@[x as int]));
                                    assert(forall|k: int|
                                        0 <= k < old_ranges.len() ==> #[trigger] field_ranges@[k]
                                            == old_ranges[k]);
                                    assert(forall|k: int|
                                        0 <= k < old_names.len() ==> #[trigger] field_names@[k]
                                            == old_names[k]);
                                    assert(field_ranges@[old_ranges.len() as int] == (st, i));
                                    assert(field_names@[old_names.len() as int]@ == name);
                                    assert(model_of(field_ranges@, field_names@) =~= acc0.push(
                                        (st as int, i as int, name),
                                    ));
                                }

                            },
                            None => {
                                proof {
                                    assert(forall|q: int|
                                        0 <= q < fv.len() ==> #[trigger] fv[q] == fields@[q]@);
                                    assert(!contains_name(fv, name));
                                    assert(spec_compile_at(s, i as int, st0, esc0, acc0, fv)
                                        == Err::<Seq<Span>, ScanError>(ScanError::Unknown(name)));
                                }
                                return Err(Error::UnknownField(string_of(&name_chars)));
                            },
                        }
                    } else {
                        // any other character stays inside the open span
                        esc = false;
                        proof {
                            assert(spec_compile_at(s, i as int, st0, esc0, acc0, fv)
                                == spec_compile_at(s, i + 1, Some(st as int), false, acc0, fv));
                        }

                    }
                },
                None => {
                    if c == '\\' {
                        esc = true;
                        proof {
                            assert(spec_compile_at(s, i as int, st0, esc0, acc0, fv)
                                == spec_compile_at(s, i + 1, None, true, acc0, fv));
                        }
                        i = i + 1;
                        continue;
                    }
                    if !esc {
                        if c == '}' {
                            proof {
                                assert(spec_compile_at(s, i as int, st0, esc0, acc0, fv) == Err::<
                                    Seq<Span>,
                                    ScanError,
                                >(ScanError::Illegal('}')));
                            }
                            return Err(
                                Error::IllegalCharacter(
                                    c,
                                    String::from_str("found outside field name block"),
                                ),
                            );
                        } else if c == '{' {
                            start = Some(i);
                            proof {
                                assert(spec_compile_at(s, i as int, st0, esc0, acc0, fv)
                                    == spec_compile_at(s, i + 1, Some(i as int), false, acc0, fv));
                            }
                        } else {
                            proof {
                                assert(spec_compile_at(s, i as int, st0, esc0, acc0, fv)
                                    == spec_compile_at(s, i + 1, None, false, acc0, fv));
                            }
                        }
                    } else {
                        proof {
                            assert(spec_compile_at(s, i as int, st0, esc0, acc0, fv)
                                == spec_compile_at(s, i + 1, None, false, acc0, fv));
                        }
                    }
                    esc = false;
                },
            }
            i = i + 1;
        }
        proof {
            assert(spec_compile(s, fv) == Ok::<Seq<Span>, ScanError>(
                model_of(field_ranges@, field_names@),
            ));
        }
        let f = Fmtr { fmt_chars: v, field_ranges, field_names };
        Ok(f)
    }

    /// The name of the `i`-th field span, if there is one.
    pub fn field_from_id(&self, i: usize) -> (r: Option<&'static str>)
        requires
            self.wf(),
        ensures
            match r {
                Some(x) => i < self.fields_model().len() && x@ == self.fields_model()[i as int].2,
                None => i >= self.fields_model().len(),
            },
    {
        if i < self.field_names.len() {
            Some(self.field_names[i])
        } else {
            None
        }
    }
}

/// The values an event supplies for each renderable field.
pub struct FieldValues {
    pub timestamp: String,
    pub timestamp_utc: String,
    pub target: String,
    pub message: String,
    pub fields: String,
    pub level: String,
}

/// What a field name renders as: one of the six known fields' values, or
/// nothing for any other name.
pub open spec fn spec_value_of(v: FieldValues, name: Seq<char>) -> Seq<char> {
    if name == "T"@ {
        v.timestamp@
    } else if name == "T(utc)"@ {
        v.timestamp_utc@
    } else if name == "t"@ {
        v.target@
    } else if name == "m"@ {
        v.message@
    } else if name == "f"@ {
        v.fields@
    } else if name == "l"@ {
        v.level@
    } else {
        Seq::empty()
    }
}

/// The text rendered from span `k` on, with `last` the cursor just past the
/// previous span's closing brace: the literal gap, the field's value, then
/// the rest.
pub open spec fn spec_render_from(
    s: Seq<char>,
    spans: Seq<Span>,
    k: int,
    last: int,
    v: FieldValues,
) -> Seq<char>
    decreases spans.len() - k,
{
    if k < 0 || k >= spans.len() {
        s.skip(last)
    } else {
        s.subrange(last, spans[k].0) + spec_value_of(v, spans[k].2) + spec_render_from(
            s,
            spans,
            k + 1,
            spans[k].1 + 1,
            v,
        )
    }
}

/// A full rendering: every literal gap and field value in order, and one
/// trailing newline.
pub open spec fn spec_render(s: Seq<char>, spans: Seq<Span>, v: FieldValues) -> Seq<char> {
    spec_render_from(s, spans, 0, 0, v).push('\n')
}

/// Appends the value of the named field to `out`.
fn append_value(out: &mut Vec<char>, values: &FieldValues, name: &str)
    ensures
        final(out)@ == old(out)@ + spec_value_of(*values, name@),
{
    if crate::chars::str_eq(name, "T") {
        crate::chars::append_str(out, values.timestamp.as_str());
    } else if crate::chars::str_eq(name, "T(utc)") {
        crate::chars::append_str(out, values.timestamp_utc.as_str());
    } else if crate::chars::str_eq(name, "t") {
        crate::chars::append_str(out, values.target.as_str());
    } else if crate::chars::str_eq(name, "m") {
        crate::chars::append_str(out, values.message.as_str());
    } else if crate::chars::str_eq(name, "f") {
        crate::chars::append_str(out, values.fields.as_str());
    } else if crate::chars::str_eq(name, "l") {
        crate::chars::append_str(out, values.level.as_str());
    } else {
        proof {
            assert(out@ =~= old(out)@ + Seq::<char>::empty());
        }
    }
}

impl Fmtr {
    /// Renders one event through this compiled template: the literal gaps and
    /// the field values in order, then a single trailing newline.
    pub fn write(&self, values: &FieldValues) -> (r: String)
        requires
            self.wf(),
        ensures
            r@ == spec_render(self.chars(), self.fields_model(), *values),
    {
        let ghost s = self.fmt_chars@;
        let ghost spans = self.fields_model();
        let n = self.fmt_chars.len();
        let m = self.field_ranges.len();
        let mut out: Vec<char> = Vec::new();
        let mut last: usize = 0;
        let mut k: usize = 0;
        while k < m
            invariant
                self.wf(),
                s == self.fmt_chars@,
                spans == self.fields_model(),
                n == s.len(),
                m == spans.len(),
                k <= m,
                if k == 0 {
                    last == 0
                } else {
                    last == spans[k - 1].1 + 1
                },
                last <= n,
                out@ + spec_render_from(s, spans, k as int, last as int, *values)
                    == spec_render_from(s, spans, 0, 0, *values),
            decreases m - k,
        {
            let (a, b) = self.field_ranges[k];
            proof {
                assert(spans[k as int] == (a as int, b as int, self.field_names@[k as int]@));
                assert(k > 0 ==> a > spans[k - 1].1);
                assert(last <= a && a <= n && b < n);
            }
            let ghost out0 = out@;
            crate::chars::extend_range(&mut out, &self.fmt_chars, last, a);
            append_value(&mut out, values, self.field_names[k]);
            proof {
                assert(out@ =~= out0 + (s.subrange(last as int, a as int) + spec_value_of(
                    *values,
                    spans[k as int].2,
                )));
                assert(spec_render_from(s, spans, k as int, last as int, *values) == s.subrange(
                    last as int,
                    a as int,
                ) + spec_value_of(*values, spans[k as int].2) + spec_render_from(
                    s,
                    spans,
                    k + 1,
                    b + 1,
                    *values,
                ));
                assert(out0 + (s.subrange(last as int, a as int) + spec_value_of(
                    *values,
                    spans[k as int].2,
                )) + spec_render_from(s, spans, k + 1, b + 1, *values) =~= out0 + (s.subrange(
                    last as int,
                    a as int,
                ) + spec_value_of(*values, spans[k as int].2) + spec_render_from(
                    s,
                    spans,
                    k + 1,
                    b + 1,
                    *values,
                )));
            }
            last = b + 1;
            k = k + 1;
        }
        let ghost out1 = out@;
        crate::chars::extend_range(&mut out, &self.fmt_chars, last, n);
        proof {
            assert(s.subrange(last as int, n as int) =~= s.skip(last as int));
            assert(spec_render_from(s, spans, k as int, last as int, *values) == s.skip(
                last as int,
            ));
            assert(out@ =~= spec_render_from(s, spans, 0, 0, *values));
        }
        out.push('\n');
        proof {
            assert(out@ =~= spec_render(s, spans, *values));
        }
        crate::chars::string_of(&out)
    }
}

/// Rendering is a function of the compiled spans and the supplied field
/// values alone: any two renderings of the same template against the same
/// values are the same text.
pub proof fn lemma_render_deterministic(
    s: Seq<char>,
    spans: Seq<Span>,
    v: FieldValues,
    r1: Seq<char>,
    r2: Seq<char>,
)
    requires
        r1 == spec_render(s, spans, v),
        r2 == spec_render(s, spans, v),
    ensures
        r1 == r2,
{
}

} // verus!
