//! Extraction of tool calls from model output.
//!
//! A tool call is one of two forms, tried in order: an XML block
//! `<use_tool name="NAME"> <param name="K">V</param>* </use_tool>`, or a
//! single JSON object with keys `tool` (a string) and `params` (an object).
//! When neither form parses, a weak heuristic decides whether the text looks
//! like an attempted-but-malformed call, which the agent loop retries.
//!
//! Limitations, deliberate and documented: string values are read up to the
//! next quote, so escaped quotes inside JSON strings are not interpreted;
//! a non-string parameter value is kept as its raw balanced text.

use vstd::prelude::*;

use crate::text::{
    chars_to_string, contains_chars, contains_seq, find_from, lemma_spec_find,
    lemma_spec_find_exact, matches_at, spec_find, str_chars, subrange_chars,
};

verus! {

/// A parameter value as extracted: decoded text of a JSON string or an XML
/// parameter, or the raw text of any other JSON value.
#[derive(Debug, Clone, PartialEq, Eq)]
pub enum ParamValue {
    /// A string value, decoded.
    Text(String),
    /// Any other JSON value, as its raw balanced text.
    Raw(String),
}

/// The spec-level image of a parameter value.
pub enum ParamSpec {
    Text(Seq<char>),
    Raw(Seq<char>),
}

impl View for ParamValue {
    type V = ParamSpec;

    open spec fn view(&self) -> ParamSpec {
        match self {
            ParamValue::Text(s) => ParamSpec::Text(s@),
            ParamValue::Raw(s) => ParamSpec::Raw(s@),
        }
    }
}

/// A tool call extracted from model output: the tool's name and its
/// parameters in order of appearance; a duplicated key takes the last value
/// at lookup.
#[derive(Debug, Clone, PartialEq, Eq)]
pub struct ToolCall {
    /// The addressed tool's name.
    pub tool: String,
    /// The parameters, in order of appearance.
    pub params: Vec<(String, ParamValue)>,
}

/// The spec-level image of a parameter list.
pub open spec fn params_spec_of(v: Seq<(String, ParamValue)>) -> Seq<(Seq<char>, ParamSpec)> {
    v.map_values(|p: (String, ParamValue)| (p.0@, p.1@))
}

impl ToolCall {
    /// The spec-level image of the parameter list.
    pub open spec fn params_view(&self) -> Seq<(Seq<char>, ParamSpec)> {
        params_spec_of(self.params@)
    }
}

/// Whitespace as the extractor skips it.
pub open spec fn is_ws(c: char) -> bool {
    c == ' ' || c == '\t' || c == '\n' || c == '\r'
}

/// The first position at or after `i` holding a non-whitespace character,
/// or the end of the text.
pub open spec fn spec_skip_ws(text: Seq<char>, i: int) -> int
    decreases text.len() - i + 1,
    when i >= 0
{
    if 0 <= i < text.len() && is_ws(text[i]) {
        spec_skip_ws(text, i + 1)
    } else {
        i
    }
}

proof fn lemma_skip_ws_bounds(text: Seq<char>, i: int)
    requires
        0 <= i <= text.len(),
    ensures
        i <= spec_skip_ws(text, i) <= text.len(),
    decreases text.len() - i + 1,
{
    if 0 <= i < text.len() && is_ws(text[i]) {
        lemma_skip_ws_bounds(text, i + 1);
    }
}

fn skip_ws(text: &Vec<char>, i: usize) -> (r: usize)
    requires
        i <= text@.len(),
    ensures
        r == spec_skip_ws(text@, i as int),
        i <= r <= text@.len(),
{
    let mut j: usize = i;
    while j < text.len() && (text[j] == ' ' || text[j] == '\t' || text[j] == '\n' || text[j]
        == '\r')
        invariant
            i <= j <= text@.len(),
            spec_skip_ws(text@, i as int) == spec_skip_ws(text@, j as int),
        decreases text@.len() - j,
    {
        j = j + 1;
    }
    j
}

/// The end of a raw JSON value starting at `i`: the first position at
/// nesting depth zero, outside a string, holding `,` or `}`. `None` when
/// the text ends or closes a bracket it never opened.
pub open spec fn spec_scan_raw(text: Seq<char>, i: int, depth: int, in_str: bool) -> Option<int>
    decreases text.len() - i,
    when i >= 0
{
    if i >= text.len() {
        None
    } else if in_str {
        if text[i] == '"' {
            spec_scan_raw(text, i + 1, depth, false)
        } else {
            spec_scan_raw(text, i + 1, depth, true)
        }
    } else if depth == 0 && (text[i] == ',' || text[i] == '}') {
        Some(i)
    } else if text[i] == '"' {
        spec_scan_raw(text, i + 1, depth, true)
    } else if text[i] == '{' || text[i] == '[' {
        spec_scan_raw(text, i + 1, depth + 1, in_str)
    } else if text[i] == '}' || text[i] == ']' {
        if depth > 0 {
            spec_scan_raw(text, i + 1, depth - 1, in_str)
        } else {
            None
        }
    } else {
        spec_scan_raw(text, i + 1, depth, in_str)
    }
}

proof fn lemma_scan_raw_bounds(text: Seq<char>, i: int, depth: int, in_str: bool)
    requires
        0 <= i,
    ensures
        spec_scan_raw(text, i, depth, in_str) matches Some(e) ==> i <= e < text.len(),
    decreases text.len() - i,
{
    if i >= text.len() {
    } else {
        lemma_scan_raw_bounds(text, i + 1, depth, false);
        lemma_scan_raw_bounds(text, i + 1, depth, true);
        lemma_scan_raw_bounds(text, i + 1, depth + 1, in_str);
        lemma_scan_raw_bounds(text, i + 1, depth - 1, in_str);
    }
}

fn scan_raw(text: &Vec<char>, i: usize) -> (r: Option<usize>)
    requires
        i <= text@.len(),
    ensures
        r matches Some(e) ==> spec_scan_raw(text@, i as int, 0, false) == Some(e as int) && i <= e
            < text@.len(),
        r is None ==> spec_scan_raw(text@, i as int, 0, false) is None,
{
    let mut j: usize = i;
    let mut depth: u128 = 0;
    let mut in_str: bool = false;
    loop
        invariant
            i <= j <= text@.len(),
            depth <= j - i,
            spec_scan_raw(text@, i as int, 0, false) == spec_scan_raw(
                text@,
                j as int,
                depth as int,
                in_str,
            ),
        decreases text@.len() - j,
    {
        proof {
            lemma_scan_raw_bounds(text@, i as int, 0, false);
        }
        if j >= text.len() {
            return None;
        }
        let c = text[j];
        if in_str {
            if c == '"' {
                in_str = false;
            }
            j = j + 1;
        } else if depth == 0 && (c == ',' || c == '}') {
            return Some(j);
        } else if c == '"' {
            in_str = true;
            j = j + 1;
        } else if c == '{' || c == '[' {
            depth = depth + 1;
            j = j + 1;
        } else if c == '}' || c == ']' {
            if depth > 0 {
                depth = depth - 1;
                j = j + 1;
            } else {
                return None;
            }
        } else {
            j = j + 1;
        }
    }
}

/// The JSON-form parameter entries from position `i` (just after the
/// object's `{`), with the position just past the closing `}`; `None` when
/// the object is malformed.
pub open spec fn spec_json_params(text: Seq<char>, i: int) -> Option<
    (Seq<(Seq<char>, ParamSpec)>, int),
>
    decreases text.len() - i,
    when i >= 0
{
    let j = spec_skip_ws(text, i);
    if j >= text.len() {
        None
    } else if text[j] == '}' {
        Some((Seq::empty(), j + 1))
    } else if text[j] == '"' {
        match spec_find(text, seq!['"'], j + 1) {
            None => None,
            Some(kq) => {
                if kq < j + 1 {
                    None
                } else {
                    let key = text.subrange(j + 1, kq);
                    let c = spec_skip_ws(text, kq + 1);
                    if c >= text.len() || text[c] != ':' {
                        None
                    } else {
                        let v = spec_skip_ws(text, c + 1);
                        if v >= text.len() {
                            None
                        } else if text[v] == '"' {
                            match spec_find(text, seq!['"'], v + 1) {
                                None => None,
                                Some(vq) => {
                                    if vq < v + 1 {
                                        None
                                    } else {
                                        let val = ParamSpec::Text(text.subrange(v + 1, vq));
                                        let a = spec_skip_ws(text, vq + 1);
                                        if a >= text.len() {
                                            None
                                        } else if text[a] == ',' {
                                            if a + 1 <= i {
                                                None
                                            } else {
                                                match spec_json_params(text, a + 1) {
                                                    None => None,
                                                    Some((entries, end)) => Some(
                                                        (seq![(key, val)] + entries, end),
                                                    ),
                                                }
                                            }
                                        } else if text[a] == '}' {
                                            Some((seq![(key, val)], a + 1))
                                        } else {
                                            None
                                        }
                                    }
                                },
                            }
                        } else {
                            match spec_scan_raw(text, v as int, 0, false) {
                                None => None,
                                Some(e) => {
                                    if e < v || e >= text.len() {
                                        None
                                    } else {
                                        let val = ParamSpec::Raw(text.subrange(v as int, e));
                                        if text[e] == ',' {
                                            if e + 1 <= i {
                                                None
                                            } else {
                                                match spec_json_params(text, e + 1) {
                                                    None => None,
                                                    Some((entries, end)) => Some(
                                                        (seq![(key, val)] + entries, end),
                                                    ),
                                                }
                                            }
                                        } else {
                                            Some((seq![(key, val)], e + 1))
                                        }
                                    }
                                },
                            }
                        }
                    }
                }
            },
        }
    } else {
        None
    }
}

/// The JSON call form: the value of the `tool` key and the entries of the
/// `params` object, where both keys are found and well formed.
pub open spec fn spec_extract_json(text: Seq<char>) -> Option<
    (Seq<char>, Seq<(Seq<char>, ParamSpec)>),
> {
    match spec_find(text, "\"tool\""@, 0) {
        None => None,
        Some(t) => {
            let c = spec_skip_ws(text, t + 6);
            if c >= text.len() || text[c] != ':' {
                None
            } else {
                let q = spec_skip_ws(text, c + 1);
                if q >= text.len() || text[q] != '"' {
                    None
                } else {
                    match spec_find(text, seq!['"'], q + 1) {
                        None => None,
                        Some(nq) => {
                            if nq < q + 1 {
                                None
                            } else {
                                let name = text.subrange(q + 1, nq);
                                match spec_find(text, "\"params\""@, nq) {
                                    None => None,
                                    Some(p) => {
                                        let c2 = spec_skip_ws(text, p + 8);
                                        if c2 >= text.len() || text[c2] != ':' {
                                            None
                                        } else {
                                            let b = spec_skip_ws(text, c2 + 1);
                                            if b >= text.len() || text[b] != '{' {
                                                None
                                            } else {
                                                match spec_json_params(text, b + 1) {
                                                    None => None,
                                                    Some((entries, _end)) => Some((name, entries)),
                                                }
                                            }
                                        }
                                    },
                                }
                            }
                        },
                    }
                }
            }
        },
    }
}

/// The XML-form parameter entries between `from` and the closing tag at
/// `end`: each `<param name="K">V</param>` in order.
pub open spec fn spec_xml_params(text: Seq<char>, from: int, end: int) -> Seq<
    (Seq<char>, ParamSpec),
>
    decreases text.len() - from,
    when from >= 0
{
    match spec_find(text, "<param name=\""@, from) {
        None => Seq::empty(),
        Some(p) => {
            if p < from || p >= end {
                Seq::empty()
            } else {
                match spec_find(text, seq!['"'], p + 13) {
                    None => Seq::empty(),
                    Some(kq) => {
                        if kq < p + 13 || kq + 2 > text.len() {
                            Seq::empty()
                        } else {
                            let key = text.subrange(p + 13, kq);
                            match spec_find(text, "</param>"@, kq + 2) {
                                None => Seq::empty(),
                                Some(v) => {
                                    if v < kq + 2 || v + 8 > end || v + 8 > text.len() {
                                        Seq::empty()
                                    } else {
                                        let val = ParamSpec::Text(text.subrange(kq + 2, v));
                                        seq![(key, val)] + spec_xml_params(text, v + 8, end)
                                    }
                                },
                            }
                        }
                    },
                }
            }
        },
    }
}

/// The XML call form: the name in `<use_tool name="NAME">` and the
/// parameters before the matching `</use_tool>`.
pub open spec fn spec_extract_xml(text: Seq<char>) -> Option<
    (Seq<char>, Seq<(Seq<char>, ParamSpec)>),
> {
    match spec_find(text, "<use_tool name=\""@, 0) {
        None => None,
        Some(a) => {
            match spec_find(text, seq!['"'], a + 16) {
                None => None,
                Some(b) => {
                    if b < a + 16 {
                        None
                    } else {
                        let name = text.subrange(a + 16, b);
                        match spec_find(text, "</use_tool>"@, b) {
                            None => None,
                            Some(e) => {
                                if e < b {
                                    None
                                } else {
                                    Some((name, spec_xml_params(text, b, e)))
                                }
                            },
                        }
                    }
                },
            }
        },
    }
}

/// What `extract_tool_call` finds in the text: the XML form when present,
/// else the JSON form, else nothing.
pub open spec fn spec_extract_tool_call(text: Seq<char>) -> Option<
    (Seq<char>, Seq<(Seq<char>, ParamSpec)>),
> {
    match spec_extract_xml(text) {
        Some(c) => Some(c),
        None => spec_extract_json(text),
    }
}

fn xml_params(text: &Vec<char>, from: usize, end: usize) -> (r: Vec<(String, ParamValue)>)
    requires
        from <= text@.len(),
        end <= text@.len(),
    ensures
        params_spec_of(r@) == spec_xml_params(text@, from as int, end as int),
    decreases text@.len() - from,
{
    let open_pat = str_chars("<param name=\"");
    let quote = str_chars("\"");
    let close_pat = str_chars("</param>");
    proof {
        reveal_strlit("<param name=\"");
        reveal_strlit("\"");
        reveal_strlit("</param>");
        assert(quote@ =~= seq!['"']);
        assert(params_spec_of(Seq::<(String, ParamValue)>::empty()) =~= Seq::<
            (Seq<char>, ParamSpec),
        >::empty());
    }
    let empty: Vec<(String, ParamValue)> = Vec::new();
    match find_from(text, &open_pat, from) {
        None => {
            assert(spec_find(text@, "<param name=\""@, from as int) is None);
            assert(spec_xml_params(text@, from as int, end as int) =~= Seq::<
                (Seq<char>, ParamSpec),
            >::empty());
            empty
        },
        Some(p) => {
            assert(spec_find(text@, "<param name=\""@, from as int) == Some(p as int));
            if p >= end {
                assert(spec_xml_params(text@, from as int, end as int) =~= Seq::<
                    (Seq<char>, ParamSpec),
                >::empty());
                empty
            } else if text.len() - p < 13 {
                assert(spec_find(text@, seq!['"'], p + 13 as int) is None);
                assert(spec_xml_params(text@, from as int, end as int) =~= Seq::<
                    (Seq<char>, ParamSpec),
                >::empty());
                empty
            } else {
                match find_from(text, &quote, p + 13) {
                    None => {
                        assert(spec_find(text@, seq!['"'], p + 13 as int) is None);
                        assert(spec_xml_params(text@, from as int, end as int) =~= Seq::<
                            (Seq<char>, ParamSpec),
                        >::empty());
                        empty
                    },
                    Some(kq) => {
                        assert(spec_find(text@, seq!['"'], p + 13 as int) == Some(kq as int));
                        if text.len() - kq < 2 {
                            assert(spec_xml_params(text@, from as int, end as int) =~= Seq::<
                                (Seq<char>, ParamSpec),
                            >::empty());
                            empty
                        } else {
                            let key = subrange_chars(text, p + 13, kq);
                            match find_from(text, &close_pat, kq + 2) {
                                None => {
                                    assert(spec_find(text@, "</param>"@, kq + 2 as int) is None);
                                    assert(spec_xml_params(text@, from as int, end as int) =~= Seq::<
                                        (Seq<char>, ParamSpec),
                                    >::empty());
                                    empty
                                },
                                Some(v) => {
                                    assert(spec_find(text@, "</param>"@, kq + 2 as int) == Some(
                                        v as int,
                                    ));
                                    if v >= end || end - v < 8 {
                                        assert(spec_xml_params(text@, from as int, end as int)
                                            =~= Seq::<(Seq<char>, ParamSpec)>::empty());
                                        empty
                                    } else {
                                        let val = subrange_chars(text, kq + 2, v);
                                        let mut rest = xml_params(text, v + 8, end);
                                        let ghost rest_view = rest@;
                                        let mut out: Vec<(String, ParamValue)> = Vec::new();
                                        out.push(
                                            (
                                                chars_to_string(&key),
                                                ParamValue::Text(chars_to_string(&val)),
                                            ),
                                        );
                                        out.append(&mut rest);
                                        proof {
                                            assert(params_spec_of(out@) =~= seq![
                                                (
                                                    text@.subrange((p + 13) as int, kq as int),
                                                    ParamSpec::Text(
                                                        text@.subrange((kq + 2) as int, v as int),
                                                    ),
                                                ),
                                            ] + params_spec_of(rest_view));
                                        }
                                        out
                                    }
                                },
                            }
                        }
                    },
                }
            }
        },
    }
}


fn json_params(text: &Vec<char>, i: usize) -> (r: Option<(Vec<(String, ParamValue)>, usize)>)
    requires
        i <= text@.len(),
    ensures
        match r {
            Some(pair) => spec_json_params(text@, i as int) == Some(
                (params_spec_of(pair.0@), pair.1 as int),
            ),
            None => spec_json_params(text@, i as int) is None,
        },
    decreases text@.len() - i,
{
    let quote = str_chars("\"");
    proof {
        reveal_strlit("\"");
        assert(quote@ =~= seq!['"']);
        assert(params_spec_of(Seq::<(String, ParamValue)>::empty()) =~= Seq::<
            (Seq<char>, ParamSpec),
        >::empty());
    }
    let j = skip_ws(text, i);
    if j >= text.len() {
        return None;
    }
    if text[j] == '}' {
        let empty: Vec<(String, ParamValue)> = Vec::new();
        return Some((empty, j + 1));
    }
    if text[j] != '"' {
        return None;
    }
    let kq = match find_from(text, &quote, j + 1) {
        None => {
            return None;
        },
        Some(kq) => kq,
    };
    let key = subrange_chars(text, j + 1, kq);
    let c = skip_ws(text, kq + 1);
    if c >= text.len() {
        return None;
    }
    if text[c] != ':' {
        return None;
    }
    let v = skip_ws(text, c + 1);
    if v >= text.len() {
        return None;
    }
    if text[v] == '"' {
        let vq = match find_from(text, &quote, v + 1) {
            None => {
                return None;
            },
            Some(vq) => vq,
        };
        let val = ParamValue::Text(chars_to_string(&subrange_chars(text, v + 1, vq)));
        let a = skip_ws(text, vq + 1);
        if a >= text.len() {
            return None;
        }
        if text[a] == ',' {
            match json_params(text, a + 1) {
                None => None,
                Some((rest, end)) => {
                    let ghost rest_view = rest@;
                    let mut rest = rest;
                    let mut out: Vec<(String, ParamValue)> = Vec::new();
                    out.push((chars_to_string(&key), val));
                    out.append(&mut rest);
                    proof {
                        assert(params_spec_of(out@) =~= seq![
                            (
                                text@.subrange(j + 1 as int, kq as int),
                                ParamSpec::Text(text@.subrange(v + 1 as int, vq as int)),
                            ),
                        ] + params_spec_of(rest_view));
                    }
                    Some((out, end))
                },
            }
        } else if text[a] == '}' {
            let mut out: Vec<(String, ParamValue)> = Vec::new();
            out.push((chars_to_string(&key), val));
            proof {
                assert(params_spec_of(out@) =~= seq![
                    (
                        text@.subrange(j + 1 as int, kq as int),
                        ParamSpec::Text(text@.subrange(v + 1 as int, vq as int)),
                    ),
                ]);
            }
            Some((out, a + 1))
        } else {
            None
        }
    } else {
        let e = match scan_raw(text, v) {
            None => {
                return None;
            },
            Some(e) => e,
        };
        let val = ParamValue::Raw(chars_to_string(&subrange_chars(text, v, e)));
        if text[e] == ',' {
            match json_params(text, e + 1) {
                None => None,
                Some((rest, end)) => {
                    let ghost rest_view = rest@;
                    let mut rest = rest;
                    let mut out: Vec<(String, ParamValue)> = Vec::new();
                    out.push((chars_to_string(&key), val));
                    out.append(&mut rest);
                    proof {
                        assert(params_spec_of(out@) =~= seq![
                            (
                                text@.subrange(j + 1 as int, kq as int),
                                ParamSpec::Raw(text@.subrange(v as int, e as int)),
                            ),
                        ] + params_spec_of(rest_view));
                    }
                    Some((out, end))
                },
            }
        } else {
            let mut out: Vec<(String, ParamValue)> = Vec::new();
            out.push((chars_to_string(&key), val));
            proof {
                assert(params_spec_of(out@) =~= seq![
                    (
                        text@.subrange(j + 1 as int, kq as int),
                        ParamSpec::Raw(text@.subrange(v as int, e as int)),
                    ),
                ]);
            }
            Some((out, e + 1))
        }
    }
}

fn extract_json_chars(text: &Vec<char>) -> (r: Option<ToolCall>)
    ensures
        match r {
            Some(call) => spec_extract_json(text@) == Some((call.tool@, call.params_view())),
            None => spec_extract_json(text@) is None,
        },
{
    let tool_pat = str_chars("\"tool\"");
    let params_pat = str_chars("\"params\"");
    let quote = str_chars("\"");
    proof {
        reveal_strlit("\"tool\"");
        reveal_strlit("\"params\"");
        reveal_strlit("\"");
        assert(quote@ =~= seq!['"']);
    }
    let t = match find_from(text, &tool_pat, 0) {
        None => {
            return None;
        },
        Some(t) => t,
    };
    let tlen = text.len();
    proof {
        assert(tool_pat@.len() == 6);
        assert(t + 6 <= tlen);
    }
    let c = skip_ws(text, t + 6);
    if c >= text.len() {
        return None;
    }
    if text[c] != ':' {
        return None;
    }
    let q = skip_ws(text, c + 1);
    if q >= text.len() {
        return None;
    }
    if text[q] != '"' {
        return None;
    }
    let nq = match find_from(text, &quote, q + 1) {
        None => {
            return None;
        },
        Some(nq) => nq,
    };
    let name = subrange_chars(text, q + 1, nq);
    let p = match find_from(text, &params_pat, nq) {
        None => {
            return None;
        },
        Some(p) => p,
    };
    proof {
        assert(params_pat@.len() == 8);
        assert(p + 8 <= tlen);
    }
    let c2 = skip_ws(text, p + 8);
    if c2 >= text.len() {
        return None;
    }
    if text[c2] != ':' {
        return None;
    }
    let b = skip_ws(text, c2 + 1);
    if b >= text.len() {
        return None;
    }
    if text[b] != '{' {
        return None;
    }
    match json_params(text, b + 1) {
        None => None,
        Some((entries, _end)) => Some(
            ToolCall { tool: chars_to_string(&name), params: entries },
        ),
    }
}

fn extract_xml_chars(text: &Vec<char>) -> (r: Option<ToolCall>)
    ensures
        match r {
            Some(call) => spec_extract_xml(text@) == Some((call.tool@, call.params_view())),
            None => spec_extract_xml(text@) is None,
        },
{
    let open_pat = str_chars("<use_tool name=\"");
    let close_pat = str_chars("</use_tool>");
    let quote = str_chars("\"");
    proof {
        reveal_strlit("<use_tool name=\"");
        reveal_strlit("</use_tool>");
        reveal_strlit("\"");
        assert(quote@ =~= seq!['"']);
    }
    let a = match find_from(text, &open_pat, 0) {
        None => {
            return None;
        },
        Some(a) => a,
    };
    if text.len() - a < 16 {
        proof {
            assert(spec_find(text@, seq!['"'], a + 16 as int) is None);
        }
        return None;
    }
    let b = match find_from(text, &quote, a + 16) {
        None => {
            return None;
        },
        Some(b) => b,
    };
    let name = subrange_chars(text, a + 16, b);
    let e = match find_from(text, &close_pat, b) {
        None => {
            return None;
        },
        Some(e) => e,
    };
    let params = xml_params(text, b, e);
    Some(ToolCall { tool: chars_to_string(&name), params })
}

/// Extract a tool call from model output: the XML form if present,
/// otherwise the JSON form; `None` when the text carries neither, in which
/// case it is a final answer unless it looks like a malformed attempt.
pub fn extract_tool_call(text: &str) -> (r: Option<ToolCall>)
    ensures
        match r {
            Some(call) => spec_extract_tool_call(text@) == Some((call.tool@, call.params_view())),
            None => spec_extract_tool_call(text@) is None,
        },
{
    let chars = str_chars(text);
    match extract_xml_chars(&chars) {
        Some(call) => Some(call),
        None => extract_json_chars(&chars),
    }
}

/// Whether text that failed extraction still looks like an attempted tool
/// call: it holds a `tool` key opener and a `params` key in proximity. Such
/// a turn is treated as a retryable format error, not a final answer.
pub fn looks_like_malformed_call(text: &str) -> (r: bool)
    ensures
        r == ((contains_seq(text@, "{\"tool\""@) || contains_seq(text@, "{ \"tool\""@))
            && contains_seq(text@, "\"params\""@)),
{
    let chars = str_chars(text);
    let p1 = str_chars("{\"tool\"");
    let p2 = str_chars("{ \"tool\"");
    let p3 = str_chars("\"params\"");
    proof {
        reveal_strlit("{\"tool\"");
        reveal_strlit("{ \"tool\"");
        reveal_strlit("\"params\"");
    }
    (contains_chars(&chars, &p1) || contains_chars(&chars, &p2)) && contains_chars(&chars, &p3)
}

/// The value of `key` among the parameters, the last occurrence winning.
pub open spec fn spec_params_lookup(ps: Seq<(Seq<char>, ParamSpec)>, key: Seq<char>) -> Option<
    ParamSpec,
>
    decreases ps.len(),
{
    if ps.len() == 0 {
        None
    } else if ps.last().0 == key {
        Some(ps.last().1)
    } else {
        spec_params_lookup(ps.drop_last(), key)
    }
}

/// Look a parameter up by key; a duplicated key takes the last value.
pub fn params_lookup<'a>(params: &'a Vec<(String, ParamValue)>, key: &str) -> (r: Option<
    &'a ParamValue,
>)
    ensures
        match r {
            Some(v) => spec_params_lookup(params_spec_of(params@), key@) == Some(v@),
            None => spec_params_lookup(params_spec_of(params@), key@) is None,
        },
{
    let mut i: usize = params.len();
    proof {
        assert(params_spec_of(params@).take(i as int) =~= params_spec_of(params@));
    }
    while i > 0
        invariant
            i <= params@.len(),
            spec_params_lookup(params_spec_of(params@), key@) == spec_params_lookup(
                params_spec_of(params@).take(i as int),
                key@,
            ),
        decreases i,
    {
        i = i - 1;
        let ghost ps = params_spec_of(params@);
        proof {
            assert(ps.take(i + 1 as int).last() == ps[i as int]);
            assert(ps.take(i + 1 as int).drop_last() =~= ps.take(i as int));
        }
        if str_equal(params[i].0.as_str(), key) {
            return Some(&params[i].1);
        }
    }
    proof {
        assert(params_spec_of(params@).take(0) =~= Seq::<(Seq<char>, ParamSpec)>::empty());
    }
    None
}

/// Relies on `str::eq`: whether two strings hold the same characters.
#[verifier::external_body]
pub(crate) fn str_equal(a: &str, b: &str) -> (r: bool)
    ensures
        r == (a@ == b@),
{
    a == b
}


/// One parameter value rendered as JSON: a quoted string for text, the raw
/// text otherwise.
pub open spec fn spec_render_value(v: ParamSpec) -> Seq<char> {
    match v {
        ParamSpec::Text(t) => seq!['"'] + t + seq!['"'],
        ParamSpec::Raw(r) => r,
    }
}

/// Parameter entries rendered as the inside of a JSON object.
pub open spec fn spec_render_entries(ps: Seq<(Seq<char>, ParamSpec)>) -> Seq<char>
    decreases ps.len(),
{
    if ps.len() == 0 {
        Seq::empty()
    } else if ps.len() == 1 {
        seq!['"'] + ps[0].0 + "\": "@ + spec_render_value(ps[0].1)
    } else {
        spec_render_entries(ps.drop_last()) + ", "@ + seq!['"'] + ps.last().0 + "\": "@
            + spec_render_value(ps.last().1)
    }
}

/// A parameter list rendered as a JSON object.
pub open spec fn spec_render_params(ps: Seq<(Seq<char>, ParamSpec)>) -> Seq<char> {
    seq!['{'] + spec_render_entries(ps) + seq!['}']
}

/// The canonical JSON form of a call.
pub open spec fn spec_render_json_call(name: Seq<char>, ps: Seq<(Seq<char>, ParamSpec)>) -> Seq<
    char,
> {
    "{\"tool\": \""@ + name + "\", \"params\": "@ + spec_render_params(ps) + seq!['}']
}

fn append_value(out: &mut String, v: &ParamValue)
    ensures
        final(out)@ == old(out)@ + spec_render_value(v@),
{
    match v {
        ParamValue::Text(t) => {
            crate::text::append_str(out, "\"");
            crate::text::append_str(out, t.as_str());
            crate::text::append_str(out, "\"");
            proof {
                reveal_strlit("\"");
                assert("\""@ =~= seq!['"']);
                assert(old(out)@ + (seq!['"'] + t@ + seq!['"']) =~= ((old(out)@ + seq!['"']) + t@)
                    + seq!['"']);
            }
        },
        ParamValue::Raw(r) => {
            crate::text::append_str(out, r.as_str());
        },
    }
}

/// Render a parameter list as JSON object text, for display and records.
pub fn render_params_text(params: &Vec<(String, ParamValue)>) -> (r: String)
    ensures
        r@ == spec_render_params(params_spec_of(params@)),
{
    let mut out: String = "{".to_owned();
    proof {
        reveal_strlit("{");
        reveal_strlit("\"");
        assert("{"@ =~= seq!['{']);
        assert("\""@ =~= seq!['"']);
        assert(params_spec_of(params@).take(0) =~= Seq::<(Seq<char>, ParamSpec)>::empty());
    }
    let mut i: usize = 0;
    while i < params.len()
        invariant
            i <= params@.len(),
            out@ == seq!['{'] + spec_render_entries(params_spec_of(params@).take(i as int)),
        decreases params@.len() - i,
    {
        let ghost ps = params_spec_of(params@);
        proof {
            reveal_strlit("\"");
            assert("\""@ =~= seq!['"']);
            assert(ps.take(i + 1 as int).drop_last() =~= ps.take(i as int));
            assert(ps.take(i + 1 as int).last() == ps[i as int]);
        }
        if i > 0 {
            crate::text::append_str(&mut out, ", ");
        }
        crate::text::append_str(&mut out, "\"");
        crate::text::append_str(&mut out, params[i].0.as_str());
        crate::text::append_str(&mut out, "\": ");
        append_value(&mut out, &params[i].1);
        proof {
            if i == 0 {
                assert(out@ =~= seq!['{'] + spec_render_entries(ps.take(i + 1 as int)));
            } else {
                assert(out@ =~= seq!['{'] + spec_render_entries(ps.take(i + 1 as int)));
            }
        }
        i = i + 1;
    }
    proof {
        assert(params_spec_of(params@).take(params@.len() as int) =~= params_spec_of(params@));
    }
    crate::text::append_str(&mut out, "}");
    proof {
        reveal_strlit("}");
        assert("}"@ =~= seq!['}']);
    }
    out
}

/// Render a call in the canonical JSON form.
pub fn render_json_call(tool: &str, params: &Vec<(String, ParamValue)>) -> (r: String)
    ensures
        r@ == spec_render_json_call(tool@, params_spec_of(params@)),
{
    let mut out: String = "{\"tool\": \"".to_owned();
    crate::text::append_str(&mut out, tool);
    crate::text::append_str(&mut out, "\", \"params\": ");
    let rendered = render_params_text(params);
    crate::text::append_str(&mut out, rendered.as_str());
    crate::text::append_str(&mut out, "}");
    proof {
        reveal_strlit("}");
        assert("}"@ =~= seq!['}']);
    }
    out
}

/// One parameter rendered in the XML form.
pub open spec fn spec_render_xml_param(k: Seq<char>, v: ParamSpec) -> Seq<char> {
    "<param name=\""@ + k + "\">"@ + (match v {
        ParamSpec::Text(t) => t,
        ParamSpec::Raw(r) => r,
    }) + "</param>"@
}

/// Parameters rendered in the XML form, in order.
pub open spec fn spec_render_xml_params(ps: Seq<(Seq<char>, ParamSpec)>) -> Seq<char>
    decreases ps.len(),
{
    if ps.len() == 0 {
        Seq::empty()
    } else {
        spec_render_xml_params(ps.drop_last()) + spec_render_xml_param(
            ps.last().0,
            ps.last().1,
        )
    }
}

/// The canonical XML form of a call.
pub open spec fn spec_render_xml_call(name: Seq<char>, ps: Seq<(Seq<char>, ParamSpec)>) -> Seq<
    char,
> {
    "<use_tool name=\""@ + name + "\">"@ + spec_render_xml_params(ps) + "</use_tool>"@
}

/// Render a call in the XML form.
pub fn render_xml_call(tool: &str, params: &Vec<(String, ParamValue)>) -> (r: String)
    ensures
        r@ == spec_render_xml_call(tool@, params_spec_of(params@)),
{
    let mut out: String = "<use_tool name=\"".to_owned();
    crate::text::append_str(&mut out, tool);
    crate::text::append_str(&mut out, "\">");
    let ghost base = out@;
    proof {
        assert(params_spec_of(params@).take(0) =~= Seq::<(Seq<char>, ParamSpec)>::empty());
    }
    let mut i: usize = 0;
    while i < params.len()
        invariant
            i <= params@.len(),
            base == "<use_tool name=\""@ + tool@ + "\">"@,
            out@ == base + spec_render_xml_params(params_spec_of(params@).take(i as int)),
        decreases params@.len() - i,
    {
        let ghost ps = params_spec_of(params@);
        proof {
            assert(ps.take(i + 1 as int).drop_last() =~= ps.take(i as int));
            assert(ps.take(i + 1 as int).last() == ps[i as int]);
        }
        crate::text::append_str(&mut out, "<param name=\"");
        crate::text::append_str(&mut out, params[i].0.as_str());
        crate::text::append_str(&mut out, "\">");
        match &params[i].1 {
            ParamValue::Text(t) => {
                crate::text::append_str(&mut out, t.as_str());
            },
            ParamValue::Raw(rv) => {
                crate::text::append_str(&mut out, rv.as_str());
            },
        }
        crate::text::append_str(&mut out, "</param>");
        proof {
            assert(out@ =~= base + spec_render_xml_params(ps.take(i + 1 as int)));
        }
        i = i + 1;
    }
    proof {
        assert(params_spec_of(params@).take(params@.len() as int) =~= params_spec_of(params@));
    }
    crate::text::append_str(&mut out, "</use_tool>");
    out
}

/// The text value of `key` among the parameters, where it has one.
pub open spec fn spec_text_param(ps: Seq<(Seq<char>, ParamSpec)>, key: Seq<char>) -> Option<
    Seq<char>,
> {
    match spec_params_lookup(ps, key) {
        Some(v) => match v {
            ParamSpec::Text(t) => Some(t),
            ParamSpec::Raw(_) => None,
        },
        None => None,
    }
}

/// The best-effort target of a call: the first of the `path`, `query`,
/// `command`, `url`, or `company_name` parameters that holds text, else the
/// whole parameter list rendered.
pub open spec fn spec_target(ps: Seq<(Seq<char>, ParamSpec)>) -> Seq<char> {
    if spec_text_param(ps, "path"@) is Some {
        spec_text_param(ps, "path"@)->Some_0
    } else if spec_text_param(ps, "query"@) is Some {
        spec_text_param(ps, "query"@)->Some_0
    } else if spec_text_param(ps, "command"@) is Some {
        spec_text_param(ps, "command"@)->Some_0
    } else if spec_text_param(ps, "url"@) is Some {
        spec_text_param(ps, "url"@)->Some_0
    } else if spec_text_param(ps, "company_name"@) is Some {
        spec_text_param(ps, "company_name"@)->Some_0
    } else {
        spec_render_params(ps)
    }
}

/// The best-effort target a permission request shows.
pub fn extract_target(params: &Vec<(String, ParamValue)>) -> (r: String)
    ensures
        r@ == spec_target(params_spec_of(params@)),
{
    let keys: [&str; 5] = ["path", "query", "command", "url", "company_name"];
    let mut k: usize = 0;
    while k < 5
        invariant
            k <= 5,
            keys@.len() == 5,
            keys@[0]@ == "path"@ && keys@[1]@ == "query"@ && keys@[2]@ == "command"@ && keys@[3]@
                == "url"@ && keys@[4]@ == "company_name"@,
            forall|j: int|
                0 <= j < k ==> spec_text_param(params_spec_of(params@), keys@[j]@) is None,
        decreases 5 - k,
    {
        match params_lookup(params, keys[k]) {
            Some(v) => {
                match v {
                    ParamValue::Text(t) => {
                        let mut out = String::new();
                        crate::text::append_str(&mut out, t.as_str());
                        proof {
                            assert(out@ =~= t@);
                        }
                        return out;
                    },
                    ParamValue::Raw(_) => {},
                }
            },
            None => {},
        }
        k = k + 1;
    }
    render_params_text(params)
}



/// The characters of the opening tag pattern: only its first is `<`.
proof fn lemma_open_pat_chars()
    ensures
        "<param name=\""@.len() == 13,
        "<param name=\""@[0] == '<',
        "<param name=\""@[1] == 'p',
        forall|j: int| 1 <= j < 13 ==> #[trigger] "<param name=\""@[j] != '<',
{
    reveal_strlit("<param name=\"");
    let p = "<param name=\""@;
    assert(p[1] != '<');
    assert(p[2] != '<');
    assert(p[3] != '<');
    assert(p[4] != '<');
    assert(p[5] != '<');
    assert(p[6] != '<');
    assert(p[7] != '<');
    assert(p[8] != '<');
    assert(p[9] != '<');
    assert(p[10] != '<');
    assert(p[11] != '<');
    assert(p[12] != '<');
}

/// The characters of the parameter's closing tag: only its first is `<`,
/// and its third is `p`.
proof fn lemma_close_param_chars()
    ensures
        "</param>"@.len() == 8,
        "</param>"@[0] == '<',
        "</param>"@[2] == 'p',
        forall|j: int| 1 <= j < 8 ==> #[trigger] "</param>"@[j] != '<',
{
    reveal_strlit("</param>");
    let p = "</param>"@;
    assert(p[1] != '<');
    assert(p[2] != '<');
    assert(p[3] != '<');
    assert(p[4] != '<');
    assert(p[5] != '<');
    assert(p[6] != '<');
    assert(p[7] != '<');
}

/// Text that can stand inside the XML form without fencing: it holds no
/// angle bracket and no quote.
pub open spec fn xml_safe(s: Seq<char>) -> bool {
    forall|i: int| 0 <= i < s.len() ==> s[i] != '<' && s[i] != '"'
}

/// A parameter list whose keys and values can stand inside the XML form.
pub open spec fn xml_safe_params(ps: Seq<(Seq<char>, ParamSpec)>) -> bool {
    forall|i: int|
        0 <= i < ps.len() ==> xml_safe((#[trigger] ps[i]).0) && (ps[i].1 matches ParamSpec::Text(t)
            && xml_safe(t))
}

/// A single-character pattern matches exactly where that character stands.
proof fn lemma_single_char_match(hay: Seq<char>, c: char, k: int)
    ensures
        matches_at(hay, seq![c], k) <==> (0 <= k && k + 1 <= hay.len() && hay[k] == c),
{
    if 0 <= k && k + 1 <= hay.len() {
        assert(hay.subrange(k, k + 1) =~= seq![hay[k]]);
        if hay[k] == c {
            assert(hay.subrange(k, k + 1) =~= seq![c]);
        } else {
            assert(hay.subrange(k, k + 1)[0] == hay[k]);
        }
    }
}

/// A pattern does not match where one of its positions disagrees.
proof fn lemma_mismatch_at(hay: Seq<char>, pat: Seq<char>, k: int, j: int)
    requires
        0 <= j < pat.len(),
        0 <= k,
        k + pat.len() <= hay.len() ==> hay[k + j] != pat[j],
    ensures
        !matches_at(hay, pat, k),
{
    if k + pat.len() <= hay.len() {
        assert(hay.subrange(k, k + pat.len())[j] == hay[k + j]);
    }
}

/// The rendered parameter parts admit no closing-tag match anywhere inside,
/// and parse back to exactly the parameters, provided the text continues
/// with the closing tag right after them.
proof fn lemma_xml_params_round_trip(
    text: Seq<char>,
    from: int,
    end: int,
    ps: Seq<(Seq<char>, ParamSpec)>,
)
    requires
        0 <= from <= end,
        end + 11 == text.len(),
        text.subrange(from, end) == spec_render_xml_params(ps),
        text.subrange(end, text.len() as int) == "</use_tool>"@,
        xml_safe_params(ps),
    ensures
        spec_xml_params(text, from, end) == ps,
    decreases ps.len(),
{
    reveal_strlit("<param name=\"");
    reveal_strlit("\">");
    reveal_strlit("</param>");
    reveal_strlit("</use_tool>");
    let open_pat = "<param name=\""@;
    let close_pat = "</param>"@;
    if ps.len() == 0 {
        assert(spec_render_xml_params(ps) =~= Seq::<char>::empty());
        assert(from == end);
        assert(from + open_pat.len() > text.len());
        assert(spec_find(text, open_pat, from) is None);
        assert(spec_xml_params(text, from, end) =~= Seq::<(Seq<char>, ParamSpec)>::empty());
        assert(spec_xml_params(text, from, end) == ps);
    } else {
        let head = ps[0];
        let rest = ps.subrange(1, ps.len() as int);
        let key = head.0;
        let val = head.1->Text_0;
        assert(head.1 matches ParamSpec::Text(t) && xml_safe(t));
        let part = spec_render_xml_param(key, head.1);
        assert(part == open_pat + key + "\">"@ + val + close_pat) by {
            assert(spec_render_xml_param(key, head.1) == "<param name=\""@ + key + "\">"@ + val
                + "</param>"@);
        }
        assert(spec_render_xml_params(ps) =~= part + spec_render_xml_params(rest)) by {
            lemma_render_xml_params_cons(ps);
        }
        let rendered = spec_render_xml_params(ps);
        let rest_rendered = spec_render_xml_params(rest);
        let rest_from = from + part.len();
        assert(rendered.len() == part.len() + rest_rendered.len());
        assert(end - from == rendered.len());
        assert(rest_from <= end);

        // The region's exact characters, by offset within the part.
        assert forall|j: int|
            0 <= j < part.len() implies #[trigger] text[from + j] == part[j] by {
            assert(text.subrange(from, end)[j] == text[from + j]);
            assert(rendered[j] == (part + rest_rendered)[j]);
        }
        assert(text.subrange(rest_from, end) =~= rest_rendered) by {
            assert forall|j: int|
                0 <= j < end - rest_from implies text.subrange(rest_from, end)[j]
                    == rest_rendered[j] by {
                assert(text.subrange(rest_from, end)[j] == text[rest_from + j]);
                assert(text[rest_from + j] == text.subrange(from, end)[part.len() + j]);
                assert(rendered[part.len() + j] == (part + rest_rendered)[part.len() + j]);
            }
        }
        assert(text.subrange(from, rest_from) =~= part);
        let key_at = from + 13;
        let val_at = key_at + key.len() + 2;
        let close_at = val_at + val.len();
        assert(forall|j: int| 0 <= j < 13 ==> part[j] == open_pat[j]);
        assert(forall|j: int| 0 <= j < key.len() ==> part[13 + j] == key[j]);
        assert(part[13 + key.len() as int] == '"' && part[13 + key.len() as int + 1] == '>') by {
            assert(part[13 + key.len() as int] == "\">"@[0]);
            assert(part[13 + key.len() as int + 1] == "\">"@[1]);
        }
        assert(forall|j: int| 0 <= j < val.len() ==> part[13 + key.len() + 2 + j] == val[j]);
        assert(forall|j: int|
            0 <= j < 8 ==> part[13 + key.len() + 2 + val.len() + j] == close_pat[j]);

        // The opening pattern matches right at `from` and nowhere earlier.
        assert(matches_at(text, open_pat, from)) by {
            assert(text.subrange(from, from + 13) =~= open_pat);
        }
        lemma_spec_find_exact(text, open_pat, from, from);
        assert(spec_find(text, open_pat, from) == Some(from));
        assert(from < end);

        // The key's closing quote is the first quote after the key starts.
        assert(matches_at(text, seq!['"'], key_at + key.len())) by {
            lemma_single_char_match(text, '"', key_at + key.len());
        }
        assert(forall|k: int| key_at <= k < key_at + key.len() ==> !matches_at(
            text,
            seq!['"'],
            k,
        )) by {
            assert forall|k: int| key_at <= k < key_at + key.len() implies !matches_at(
                text,
                seq!['"'],
                k,
            ) by {
                assert(text[k] == key[k - key_at]);
                assert(text[k] != '"');
                lemma_single_char_match(text, '"', k);
            }
        }
        lemma_spec_find_exact(text, seq!['"'], key_at, key_at + key.len());
        let kq = key_at + key.len();
        assert(spec_find(text, seq!['"'], key_at) == Some(kq));

        // The closing tag of the parameter is the first one after the value
        // starts: the value holds no angle bracket.
        assert(matches_at(text, close_pat, close_at)) by {
            assert(text.subrange(close_at, close_at + 8) =~= close_pat);
        }
        assert(forall|k: int| kq + 2 <= k < close_at ==> !matches_at(text, close_pat, k)) by {
            assert forall|k: int| kq + 2 <= k < close_at implies !matches_at(
                text,
                close_pat,
                k,
            ) by {
                assert(text[k] == val[k - (kq + 2)]);
                assert(text[k] != '<');
                assert(close_pat[0] == '<');
                lemma_mismatch_at(text, close_pat, k, 0);
            }
        }
        lemma_spec_find_exact(text, close_pat, kq + 2, close_at);
        assert(spec_find(text, close_pat, kq + 2) == Some(close_at));

        assert(close_at + 8 == rest_from);
        assert(rest_from <= end);
        assert(text.subrange(key_at, kq) =~= key);
        assert(text.subrange(kq + 2, close_at) =~= val);

        assert(xml_safe_params(rest)) by {
            assert(forall|i: int| 0 <= i < rest.len() ==> rest[i] == ps[i + 1]);
        }
        lemma_xml_params_round_trip(text, rest_from, end, rest);
        assert(spec_xml_params(text, from, end) == seq![(key, ParamSpec::Text(val))]
            + spec_xml_params(text, rest_from, end));
        assert(seq![(key, ParamSpec::Text(val))] + rest =~= ps) by {
            assert(head.1 == ParamSpec::Text(val));
        }
    }
}

/// Rendering a non-empty parameter list is its first part followed by the
/// rendering of the rest.
proof fn lemma_render_xml_params_cons(ps: Seq<(Seq<char>, ParamSpec)>)
    requires
        ps.len() > 0,
    ensures
        spec_render_xml_params(ps) =~= spec_render_xml_param(ps[0].0, ps[0].1)
            + spec_render_xml_params(ps.subrange(1, ps.len() as int)),
    decreases ps.len(),
{
    if ps.len() == 1 {
        assert(ps.drop_last() =~= Seq::<(Seq<char>, ParamSpec)>::empty());
        assert(ps.subrange(1, ps.len() as int) =~= Seq::<(Seq<char>, ParamSpec)>::empty());
    } else {
        lemma_render_xml_params_cons(ps.drop_last());
        assert(ps.drop_last()[0] == ps[0]);
        assert(ps.drop_last().subrange(1, ps.drop_last().len() as int) =~= ps.subrange(
            1,
            ps.len() as int,
        ).drop_last());
        lemma_render_xml_params_snoc(ps.subrange(1, ps.len() as int));
    }
}

/// Rendering splits at the last parameter too.
proof fn lemma_render_xml_params_snoc(ps: Seq<(Seq<char>, ParamSpec)>)
    requires
        ps.len() > 0,
    ensures
        spec_render_xml_params(ps) =~= spec_render_xml_params(ps.drop_last())
            + spec_render_xml_param(ps.last().0, ps.last().1),
{
}

/// Tool-call extraction round-trip, XML form: rendering a call whose name,
/// keys, and text values hold no angle bracket or quote, then extracting,
/// yields exactly the documented name and parameters.
pub proof fn lemma_xml_round_trip(name: Seq<char>, ps: Seq<(Seq<char>, ParamSpec)>)
    requires
        xml_safe(name),
        xml_safe_params(ps),
    ensures
        spec_extract_tool_call(spec_render_xml_call(name, ps)) == Some((name, ps)),
{
    reveal_strlit("<use_tool name=\"");
    reveal_strlit("\">");
    reveal_strlit("</use_tool>");
    let open_pat = "<use_tool name=\""@;
    let close_pat = "</use_tool>"@;
    let parts = spec_render_xml_params(ps);
    let text = spec_render_xml_call(name, ps);
    assert(text =~= open_pat + name + "\">"@ + parts + close_pat);
    let b = 16 + name.len() as int;
    let endpos = b + 2 + parts.len() as int;
    assert(text.len() == endpos + 11);

    assert(forall|j: int| 0 <= j < 16 ==> #[trigger] text[j] == open_pat[j]);
    assert(forall|j: int| 0 <= j < name.len() ==> #[trigger] text[16 + j] == name[j]);
    assert(text[b] == '"' && text[b + 1] == '>') by {
        assert(text[b] == "\">"@[0]);
        assert(text[b + 1] == "\">"@[1]);
    }
    assert(forall|j: int| 0 <= j < parts.len() ==> #[trigger] text[b + 2 + j] == parts[j]);
    assert(forall|j: int| 0 <= j < 11 ==> #[trigger] text[endpos + j] == close_pat[j]);

    // The opening tag stands at the very start.
    assert(matches_at(text, open_pat, 0)) by {
        assert(text.subrange(0, 16) =~= open_pat);
    }
    lemma_spec_find_exact(text, open_pat, 0, 0);

    // The name's closing quote is the first quote at or after position 16.
    assert(matches_at(text, seq!['"'], b)) by {
        lemma_single_char_match(text, '"', b);
    }
    assert forall|k: int| 16 <= k < b implies !matches_at(text, seq!['"'], k) by {
        assert(text[k] == name[k - 16]);
        assert(text[k] != '"');
        lemma_single_char_match(text, '"', k);
    }
    lemma_spec_find_exact(text, seq!['"'], 16, b);
    assert(text.subrange(16, b) =~= name);

    // The closing tag is the first one at or after the quote: neither the
    // `">` bridge nor any rendered part admits one.
    assert(matches_at(text, close_pat, endpos)) by {
        assert(text.subrange(endpos, endpos + 11) =~= close_pat);
    }
    assert(text.subrange(b + 2, endpos) =~= parts);
    lemma_no_close_in_params(text, b + 2, endpos, ps);
    assert forall|k: int| b <= k < endpos implies !matches_at(text, close_pat, k) by {
        if k == b {
            assert(text[k] == '"');
            assert(close_pat[0] == '<');
            lemma_mismatch_at(text, close_pat, k, 0);
        } else if k == b + 1 {
            assert(text[k] == '>');
            lemma_mismatch_at(text, close_pat, k, 0);
        } else {
            assert(!matches_at(text, close_pat, k));
        }
    }
    lemma_spec_find_exact(text, close_pat, b, endpos);

    assert(text.subrange(b + 2, endpos) =~= parts);
    assert(text.subrange(endpos, text.len() as int) =~= close_pat);
    lemma_xml_params_round_trip(text, b + 2, endpos, ps);
    assert(spec_xml_params(text, b, endpos) == spec_xml_params(text, b + 2, endpos)) by {
        lemma_xml_params_skip_bridge(text, b, endpos);
    }
    assert(spec_extract_xml(text) == Some((name, ps)));
}

/// Parameter parsing from the quote and from past the `">` bridge agree:
/// the opening pattern search skips the bridge either way.
proof fn lemma_xml_params_skip_bridge(text: Seq<char>, b: int, endpos: int)
    requires
        0 <= b,
        b + 2 <= endpos <= text.len(),
        text[b] == '"',
        text[b + 1] == '>',
    ensures
        spec_xml_params(text, b, endpos) == spec_xml_params(text, b + 2, endpos),
{
    reveal_strlit("<param name=\"");
    let open_pat = "<param name=\""@;
    lemma_mismatch_at(text, open_pat, b, 0);
    lemma_mismatch_at(text, open_pat, b + 1, 0);
    assert(spec_find(text, open_pat, b) == spec_find(text, open_pat, b + 2)) by {
        assert(spec_find(text, open_pat, b) == spec_find(text, open_pat, b + 1));
        assert(spec_find(text, open_pat, b + 1) == spec_find(text, open_pat, b + 2));
    }
    match spec_find(text, open_pat, b + 2) {
        None => {},
        Some(p) => {
            lemma_spec_find(text, open_pat, b + 2);
        },
    }
}

/// No closing tag matches inside rendered parameter parts.
proof fn lemma_no_close_in_params(text: Seq<char>, from: int, end: int, ps: Seq<(Seq<char>, ParamSpec)>)
    requires
        0 <= from <= end <= text.len(),
        text.subrange(from, end) == spec_render_xml_params(ps),
        xml_safe_params(ps),
    ensures
        forall|k: int| from <= k < end ==> !matches_at(text, "</use_tool>"@, k),
    decreases ps.len(),
{
    reveal_strlit("<param name=\"");
    reveal_strlit("\">");
    reveal_strlit("</param>");
    reveal_strlit("</use_tool>");
    let close = "</use_tool>"@;
    if ps.len() == 0 {
        assert(spec_render_xml_params(ps) =~= Seq::<char>::empty());
    } else {
        let head = ps[0];
        let rest = ps.subrange(1, ps.len() as int);
        let key = head.0;
        let val = head.1->Text_0;
        assert(head.1 matches ParamSpec::Text(t) && xml_safe(t));
        let part = spec_render_xml_param(key, head.1);
        lemma_render_xml_params_cons(ps);
        let rendered = spec_render_xml_params(ps);
        let rest_rendered = spec_render_xml_params(rest);
        let rest_from = from + part.len();
        assert(rendered.len() == part.len() + rest_rendered.len());
        assert(end - from == rendered.len());
        assert(rest_from <= end);
        assert forall|j: int|
            0 <= j < part.len() implies #[trigger] text[from + j] == part[j] by {
            assert(text.subrange(from, end)[j] == text[from + j]);
            assert(rendered[j] == (part + rest_rendered)[j]);
        }
        assert(text.subrange(rest_from, end) =~= rest_rendered) by {
            assert forall|j: int|
                0 <= j < end - rest_from implies text.subrange(rest_from, end)[j]
                    == rest_rendered[j] by {
                assert(text.subrange(rest_from, end)[j] == text[rest_from + j]);
                assert(text[rest_from + j] == text.subrange(from, end)[part.len() + j]);
                assert(rendered[part.len() + j] == (part + rest_rendered)[part.len() + j]);
            }
        }
        assert(part == "<param name=\""@ + key + "\">"@ + val + "</param>"@);
        let open_pat = "<param name=\""@;
        assert(forall|j: int| 0 <= j < 13 ==> part[j] == open_pat[j]);
        assert(forall|j: int| 0 <= j < key.len() ==> part[13 + j] == key[j]);
        assert(part[13 + key.len() as int] == '"' && part[13 + key.len() as int + 1] == '>') by {
            assert(part[13 + key.len() as int] == "\">"@[0]);
            assert(part[13 + key.len() as int + 1] == "\">"@[1]);
        }
        assert(forall|j: int| 0 <= j < val.len() ==> part[13 + key.len() + 2 + j] == val[j]);
        assert(forall|j: int|
            0 <= j < 8 ==> part[13 + key.len() + 2 + val.len() + j] == "</param>"@[j]);
        assert forall|k: int| from <= k < rest_from implies !matches_at(text, close, k) by {
            lemma_open_pat_chars();
            lemma_close_param_chars();
            let j = k - from;
            let klen = key.len() as int;
            let vlen = val.len() as int;
            assert(part.len() == 13 + klen + 2 + vlen + 8);
            assert(k == from + j);
            assert(text[from + j] == part[j]);
            if j + 1 < part.len() {
                assert(text[from + (j + 1)] == part[j + 1]);
            }
            if j + 2 < part.len() {
                assert(text[from + (j + 2)] == part[j + 2]);
            }
            if j < 13 {
                // Inside `<param name="`: its one angle bracket opens a
                // different tag.
                if j == 0 {
                    assert(text[k + 1] == part[1]);
                    assert(part[1] == open_pat[1]);
                    assert(close[1] == '/');
                    lemma_mismatch_at(text, close, k, 1);
                } else {
                    assert(text[k] == part[j]);
                    assert(part[j] == open_pat[j]);
                    assert(open_pat[j] != '<');
                    assert(close[0] == '<');
                    lemma_mismatch_at(text, close, k, 0);
                }
            } else if j < 13 + klen {
                assert(part[13 + (j - 13)] == key[j - 13]);
                assert(text[k] == part[j]);
                assert(text[k] != '<');
                lemma_mismatch_at(text, close, k, 0);
            } else if j < 13 + klen + 2 {
                assert(text[k] == part[j]);
                assert(part[13 + klen] == '"' && part[13 + klen + 1] == '>');
                assert(j == 13 + klen || j == 13 + klen + 1);
                lemma_mismatch_at(text, close, k, 0);
            } else if j < 13 + klen + 2 + vlen {
                assert(part[13 + klen + 2 + (j - (13 + klen + 2))] == val[j - (13 + klen + 2)]);
                assert(text[k] == part[j]);
                assert(text[k] != '<');
                lemma_mismatch_at(text, close, k, 0);
            } else {
                // Inside `</param>`: the third character differs.
                let off = j - (13 + klen + 2 + vlen);
                assert(0 <= off < 8);
                assert(part[13 + klen + 2 + vlen + off] == "</param>"@[off]);
                if off == 0 {
                    assert(part[13 + klen + 2 + vlen + 2] == "</param>"@[2]);
                    assert(text[k + 2] == part[j + 2]);
                    assert(text[k + 2] == 'p');
                    assert(close[2] == 'u');
                    lemma_mismatch_at(text, close, k, 2);
                } else {
                    assert(text[k] == part[j]);
                    assert("</param>"@[off] != '<');
                    assert(text[k] != '<');
                    lemma_mismatch_at(text, close, k, 0);
                }
            }
        }
        assert(xml_safe_params(rest)) by {
            assert(forall|i: int| 0 <= i < rest.len() ==> rest[i] == ps[i + 1]);
        }
        lemma_no_close_in_params(text, rest_from, end, rest);
    }
}


/// Text that carries neither call marker extracts to nothing: without the
/// XML opener the XML form cannot be found, and without a quoted `tool` key
/// the JSON form cannot be found, so such a turn is a final answer — no
/// tool is looked up or executed (`classify_response` then answers
/// `FinalAnswer` whenever the text is not corrupted and does not look like
/// a malformed attempt).
pub proof fn lemma_no_call_no_extraction(text: Seq<char>)
    requires
        !contains_seq(text, "<use_tool name=\""@),
        !contains_seq(text, "\"tool\""@),
    ensures
        spec_extract_tool_call(text) is None,
{
    proof_extract_xml_none(text);
    assert(forall|k: int| 0 <= k ==> !matches_at(text, "\"tool\""@, k));
    crate::text::lemma_none_when_no_match(text, "\"tool\""@, 0);
    assert(spec_extract_json(text) is None);
}

/// Text without the XML opener yields nothing to the XML search.
proof fn proof_extract_xml_none(text: Seq<char>)
    requires
        !contains_seq(text, "<use_tool name=\""@),
    ensures
        spec_extract_xml(text) is None,
{
    assert(forall|k: int| 0 <= k ==> !matches_at(text, "<use_tool name=\""@, k));
    crate::text::lemma_none_when_no_match(text, "<use_tool name=\""@, 0);
}

/// Text that can stand inside a JSON string of the canonical call form: it
/// holds no quote.
pub open spec fn json_safe(s: Seq<char>) -> bool {
    forall|i: int| 0 <= i < s.len() ==> s[i] != '"'
}

/// A parameter list whose keys and values can stand in the canonical JSON
/// form without escapes.
pub open spec fn json_safe_params(ps: Seq<(Seq<char>, ParamSpec)>) -> bool {
    forall|i: int|
        0 <= i < ps.len() ==> json_safe((#[trigger] ps[i]).0) && (ps[i].1 matches ParamSpec::Text(
            t,
        ) && json_safe(t))
}

/// Rendering a non-empty entry list from the front: the first entry, then a
/// separator and the rest.
proof fn lemma_render_entries_cons(ps: Seq<(Seq<char>, ParamSpec)>)
    requires
        ps.len() > 0,
    ensures
        ps.len() == 1 ==> spec_render_entries(ps) =~= seq!['"'] + ps[0].0 + "\": "@
            + spec_render_value(ps[0].1),
        ps.len() > 1 ==> spec_render_entries(ps) =~= (seq!['"'] + ps[0].0 + "\": "@
            + spec_render_value(ps[0].1)) + ", "@ + spec_render_entries(
            ps.subrange(1, ps.len() as int),
        ),
    decreases ps.len(),
{
    if ps.len() <= 1 {
    } else if ps.len() == 2 {
        assert(ps.drop_last() =~= seq![ps[0]]);
        assert(ps.subrange(1, 2) =~= seq![ps[1]]);
        let head_entry = seq!['"'] + ps[0].0 + "\": "@ + spec_render_value(ps[0].1);
        let last_entry = seq!['"'] + ps[1].0 + "\": "@ + spec_render_value(ps[1].1);
        assert(spec_render_entries(seq![ps[0]]) == head_entry) by {
            assert(seq![ps[0]][0] == ps[0]);
        }
        assert(spec_render_entries(seq![ps[1]]) == last_entry) by {
            assert(seq![ps[1]][0] == ps[1]);
        }
        assert(ps.last() == ps[1]);
        assert(spec_render_entries(ps) == spec_render_entries(ps.drop_last()) + ", "@
            + last_entry);
        assert(spec_render_entries(ps) =~= head_entry + ", "@ + spec_render_entries(
            ps.subrange(1, 2),
        ));
    } else {
        lemma_render_entries_cons(ps.drop_last());
        let dl = ps.drop_last();
        let sub = ps.subrange(1, ps.len() as int);
        assert(dl[0] == ps[0]);
        assert(dl.subrange(1, dl.len() as int) =~= sub.drop_last());
        assert(sub.len() > 1);
        assert(sub.last() == ps.last());
        let head_entry = seq!['"'] + ps[0].0 + "\": "@ + spec_render_value(ps[0].1);
        let last_entry = seq!['"'] + ps.last().0 + "\": "@ + spec_render_value(ps.last().1);
        assert(spec_render_entries(dl) =~= head_entry + ", "@ + spec_render_entries(
            sub.drop_last(),
        ));
        assert(spec_render_entries(sub) == spec_render_entries(sub.drop_last()) + ", "@
            + last_entry);
        assert(spec_render_entries(ps) == spec_render_entries(dl) + ", "@ + last_entry);
        assert((head_entry + ", "@ + spec_render_entries(sub.drop_last())) + ", "@ + last_entry
            =~= head_entry + ", "@ + (spec_render_entries(sub.drop_last()) + ", "@ + last_entry));
        assert(spec_render_entries(ps) =~= head_entry + ", "@ + spec_render_entries(sub));
    }
}

/// Whitespace skipping walks one non-space position to itself.
proof fn lemma_skip_ws_at(text: Seq<char>, i: int)
    requires
        0 <= i,
        i < text.len() ==> !is_ws(text[i]),
    ensures
        spec_skip_ws(text, i) == i,
{
}

/// The canonical entry text parses back to its entries: the region at the
/// skip target holds the rendered entries, and the whole text ends right
/// after the two closing braces.
#[verifier::rlimit(80)]
proof fn lemma_json_entries_round_trip(text: Seq<char>, i: int, ps: Seq<(Seq<char>, ParamSpec)>)
    requires
        0 <= i <= text.len(),
        spec_skip_ws(text, i) + spec_render_entries(ps).len() + 2 == text.len(),
        text.subrange(
            spec_skip_ws(text, i),
            spec_skip_ws(text, i) + spec_render_entries(ps).len(),
        ) == spec_render_entries(ps),
        text[text.len() - 2] == '}',
        text[text.len() - 1] == '}',
        json_safe_params(ps),
    ensures
        spec_json_params(text, i) == Some((ps, text.len() - 1)),
    decreases ps.len(),
{
    reveal_strlit("\": ");
    reveal_strlit(", ");
    let j = spec_skip_ws(text, i);
    lemma_skip_ws_bounds(text, i);
    let rendered = spec_render_entries(ps);
    assert(forall|o: int| 0 <= o < rendered.len() ==> #[trigger] text[j + o] == rendered[o]) by {
        assert(forall|o: int|
            0 <= o < rendered.len() ==> text.subrange(j, j + rendered.len())[o] == #[trigger] text[j
                + o]);
    }
    if ps.len() == 0 {
        assert(rendered =~= Seq::<char>::empty());
        assert(text[j] == '}');
        assert(spec_json_params(text, i) == Some((Seq::<(Seq<char>, ParamSpec)>::empty(), j + 1)));
        assert(ps =~= Seq::<(Seq<char>, ParamSpec)>::empty());
    } else {
        let head = ps[0];
        let rest = ps.subrange(1, ps.len() as int);
        let key = head.0;
        let val = head.1->Text_0;
        assert(head.1 matches ParamSpec::Text(t) && json_safe(t));
        let klen = key.len() as int;
        let vlen = val.len() as int;
        let entry = seq!['"'] + key + "\": "@ + spec_render_value(head.1);
        lemma_render_entries_cons(ps);
        assert(spec_render_value(head.1) =~= seq!['"'] + val + seq!['"']);
        assert(entry.len() == klen + vlen + 6);

        // The entry's exact characters by offset.
        assert(entry[0] == '"');
        assert(forall|o: int| 0 <= o < klen ==> entry[1 + o] == key[o]);
        assert(entry[1 + klen] == '"' && entry[2 + klen] == ':' && entry[3 + klen] == ' ') by {
            assert(entry[1 + klen] == "\": "@[0]);
            assert(entry[2 + klen] == "\": "@[1]);
            assert(entry[3 + klen] == "\": "@[2]);
        }
        assert(entry[4 + klen] == '"');
        assert(forall|o: int| 0 <= o < vlen ==> entry[5 + klen + o] == val[o]);
        assert(entry[5 + klen + vlen] == '"');

        if ps.len() == 1 {
            assert(rendered =~= entry);
        } else {
            assert(rendered =~= entry + ", "@ + spec_render_entries(rest));
        }
        assert(forall|o: int| 0 <= o < entry.len() ==> rendered[o] == entry[o]);

        assert(text[j] == '"');
        assert(!is_ws('"'));
        lemma_skip_ws_at(text, j);
        assert(spec_skip_ws(text, j) == j);

        // The key's closing quote is the first quote after its start.
        let kq = j + 1 + klen;
        assert(matches_at(text, seq!['"'], kq)) by {
            assert(text[j + (1 + klen)] == rendered[1 + klen]);
            lemma_single_char_match(text, '"', kq);
        }
        assert forall|k: int| j + 1 <= k < kq implies !matches_at(text, seq!['"'], k) by {
            assert(text[j + (k - j)] == rendered[k - j]);
            assert(rendered[k - j] == key[k - j - 1]);
            lemma_single_char_match(text, '"', k);
        }
        lemma_spec_find_exact(text, seq!['"'], j + 1, kq);
        assert(text.subrange(j + 1, kq) =~= key);

        // The colon and the value's opening quote.
        assert(text[j + (2 + klen)] == rendered[2 + klen]);
        assert(text[j + (3 + klen)] == rendered[3 + klen]);
        assert(text[j + (4 + klen)] == rendered[4 + klen]);
        assert(text[kq + 1] == ':') by {
            assert(kq + 1 == j + (2 + klen));
        }
        lemma_skip_ws_at(text, kq + 1);
        assert(text[kq + 2] == ' ' && text[kq + 3] == '"') by {
            assert(kq + 2 == j + (3 + klen));
            assert(kq + 3 == j + (4 + klen));
        }
        assert(spec_skip_ws(text, kq + 2) == kq + 3) by {
            lemma_skip_ws_at(text, kq + 3);
        }
        let v = kq + 3;

        // The value's closing quote is the first quote after its start.
        let vq = v + 1 + vlen;
        assert(matches_at(text, seq!['"'], vq)) by {
            assert(text[j + (5 + klen + vlen)] == rendered[5 + klen + vlen]);
            assert(vq == j + (5 + klen + vlen));
            lemma_single_char_match(text, '"', vq);
        }
        assert forall|k: int| v + 1 <= k < vq implies !matches_at(text, seq!['"'], k) by {
            assert(text[j + (k - j)] == rendered[k - j]);
            assert(rendered[k - j] == val[k - j - (5 + klen)]);
            lemma_single_char_match(text, '"', k);
        }
        lemma_spec_find_exact(text, seq!['"'], v + 1, vq);
        assert(text.subrange(v + 1, vq) =~= val);

        if ps.len() == 1 {
            assert(vq + 1 == j + rendered.len());
            assert(text[vq + 1] == '}');
            lemma_skip_ws_at(text, vq + 1);
            assert(spec_json_params(text, i) == Some((seq![(key, ParamSpec::Text(val))], vq + 2)));
            assert(seq![(key, ParamSpec::Text(val))] =~= ps) by {
                assert(head.1 == ParamSpec::Text(val));
            }
            assert(vq + 2 == text.len() - 1);
        } else {
            let rest_rendered = spec_render_entries(rest);
            assert(rendered[entry.len() as int] == ',' && rendered[entry.len() as int + 1] == ' ') by {
                assert(rendered[entry.len() as int] == ", "@[0]);
                assert(rendered[entry.len() as int + 1] == ", "@[1]);
            }
            assert(text[vq + 1] == ',') by {
                assert(vq + 1 == j + entry.len());
                assert(text[j + entry.len() as int] == rendered[entry.len() as int]);
            }
            lemma_skip_ws_at(text, vq + 1);

            // The rest parses from just past the comma: one space, then the
            // next entry.
            let i2 = vq + 2;
            assert(text[i2] == ' ') by {
                assert(i2 == j + (entry.len() + 1));
                assert(text[j + (entry.len() as int + 1)] == rendered[entry.len() as int + 1]);
            }
            let j2 = j + entry.len() + 2;
            assert(forall|o: int|
                0 <= o < rest_rendered.len() ==> rendered[entry.len() as int + 2 + o]
                    == rest_rendered[o]);
            assert(text[j2] == '"') by {
                assert(rest.len() > 0);
                lemma_render_entries_cons(rest);
                assert(rest_rendered[0] == '"');
                assert(text[j + (entry.len() as int + 2)] == rendered[entry.len() as int + 2]);
            }
            assert(spec_skip_ws(text, i2) == j2) by {
                lemma_skip_ws_at(text, j2);
            }
            assert(text.subrange(j2, j2 + rest_rendered.len()) =~= rest_rendered) by {
                assert(forall|o: int|
                    0 <= o < rest_rendered.len() ==> text.subrange(
                        j2,
                        j2 + rest_rendered.len(),
                    )[o] == #[trigger] text[j2 + o]);
                assert(forall|o: int|
                    0 <= o < rest_rendered.len() ==> #[trigger] text[j2 + o] == rendered[entry.len()
                        as int + 2 + o]);
            }
            assert(json_safe_params(rest)) by {
                assert(forall|o: int| 0 <= o < rest.len() ==> rest[o] == ps[o + 1]);
            }
            lemma_json_entries_round_trip(text, i2, rest);
            assert(spec_json_params(text, i2) == Some((rest, text.len() - 1)));
            assert(spec_json_params(text, i) == Some(
                (seq![(key, ParamSpec::Text(val))] + rest, text.len() - 1),
            ));
            assert(seq![(key, ParamSpec::Text(val))] + rest =~= ps) by {
                assert(head.1 == ParamSpec::Text(val));
            }
        }
    }
}

/// Tool-call extraction round-trip, JSON form: rendering a call whose name,
/// keys, and text values hold no quote, then extracting, yields exactly the
/// documented name and parameters. The XML search never fires: the rendered
/// text holds no XML opener.
pub proof fn lemma_json_round_trip(name: Seq<char>, ps: Seq<(Seq<char>, ParamSpec)>)
    requires
        json_safe(name),
        json_safe_params(ps),
        !contains_seq(spec_render_json_call(name, ps), "<use_tool name=\""@),
    ensures
        spec_extract_json(spec_render_json_call(name, ps)) == Some((name, ps)),
        spec_extract_tool_call(spec_render_json_call(name, ps)) == Some((name, ps)),
{
    proof_extract_xml_none(spec_render_json_call(name, ps));
    reveal_strlit("{\"tool\": \"");
    reveal_strlit("\", \"params\": ");
    reveal_strlit("\"tool\"");
    reveal_strlit("\"params\"");
    let prefix = "{\"tool\": \""@;
    let bridge = "\", \"params\": "@;
    let text = spec_render_json_call(name, ps);
    let entries = spec_render_entries(ps);
    assert(text =~= prefix + name + bridge + (seq!['{'] + entries + seq!['}']) + seq!['}']);
    let nlen = name.len() as int;
    assert(prefix.len() == 10);
    assert(bridge.len() == 13);

    assert(forall|o: int| 0 <= o < 10 ==> #[trigger] text[o] == prefix[o]);
    assert(forall|o: int| 0 <= o < nlen ==> #[trigger] text[10 + o] == name[o]);
    assert(forall|o: int| 0 <= o < 13 ==> #[trigger] text[10 + nlen + o] == bridge[o]);
    let ob = 10 + nlen + 13;
    assert(text[ob] == '{');
    assert(forall|o: int| 0 <= o < entries.len() ==> #[trigger] text[ob + 1 + o] == entries[o]);
    assert(text[ob + 1 + entries.len()] == '}');
    assert(text[ob + 2 + entries.len()] == '}');
    assert(text.len() == ob + 3 + entries.len());

    // `"tool"` first occurs at position 1.
    let tool_pat = "\"tool\""@;
    assert(matches_at(text, tool_pat, 1)) by {
        assert(text.subrange(1, 7) =~= tool_pat);
    }
    assert(!matches_at(text, tool_pat, 0)) by {
        assert(text[0] == '{');
        assert(tool_pat[0] == '"');
        lemma_mismatch_at(text, tool_pat, 0, 0);
    }
    lemma_spec_find_exact(text, tool_pat, 0, 1);

    // The colon, the name's opening quote, and its closing quote.
    assert(text[7] == ':' && text[8] == ' ' && text[9] == '"');
    lemma_skip_ws_at(text, 7);
    assert(spec_skip_ws(text, 8) == 9) by {
        lemma_skip_ws_at(text, 9);
    }
    let nq = 10 + nlen;
    assert(matches_at(text, seq!['"'], nq)) by {
        assert(text[10 + nlen + 0] == bridge[0]);
        assert(bridge[0] == '"');
        lemma_single_char_match(text, '"', nq);
    }
    assert forall|k: int| 10 <= k < nq implies !matches_at(text, seq!['"'], k) by {
        assert(text[10 + (k - 10)] == name[k - 10]);
        lemma_single_char_match(text, '"', k);
    }
    lemma_spec_find_exact(text, seq!['"'], 10, nq);
    assert(text.subrange(10, nq) =~= name);

    // `"params"` first occurs three positions past the closing quote.
    let params_pat = "\"params\""@;
    assert(matches_at(text, params_pat, nq + 3)) by {
        assert(text.subrange(nq + 3, nq + 11) =~= params_pat) by {
            assert(forall|o: int|
                0 <= o < 8 ==> text.subrange(nq + 3, nq + 11)[o] == #[trigger] text[nq + 3 + o]);
            assert(forall|o: int| 0 <= o < 8 ==> #[trigger] text[10 + nlen + (3 + o)] == bridge[3
                + o]);
            assert(forall|o: int| 0 <= o < 8 ==> bridge[3 + o] == params_pat[o]);
        }
    }
    assert forall|k: int| nq <= k < nq + 3 implies !matches_at(text, params_pat, k) by {
        if k == nq {
            assert(text[10 + nlen + 1] == bridge[1]);
            assert(text[k + 1] == ',');
            assert(params_pat[1] == 'p');
            lemma_mismatch_at(text, params_pat, k, 1);
        } else if k == nq + 1 {
            assert(text[10 + nlen + 1] == bridge[1]);
            assert(text[k] == ',');
            assert(params_pat[0] == '"');
            lemma_mismatch_at(text, params_pat, k, 0);
        } else {
            assert(text[10 + nlen + 2] == bridge[2]);
            assert(text[k] == ' ');
            lemma_mismatch_at(text, params_pat, k, 0);
        }
    }
    lemma_spec_find_exact(text, params_pat, nq, nq + 3);

    // The second colon and the object's opening brace.
    assert(text[nq + 11] == ':' && text[nq + 12] == ' ' && text[nq + 13] == '{') by {
        assert(text[10 + nlen + 11] == bridge[11]);
        assert(text[10 + nlen + 12] == bridge[12]);
    }
    lemma_skip_ws_at(text, nq + 11);
    assert(spec_skip_ws(text, nq + 12) == nq + 13) by {
        lemma_skip_ws_at(text, nq + 13);
    }

    // The entries parse back, and the object closes just before the end.
    assert(spec_skip_ws(text, ob + 1) + entries.len() + 2 == text.len() && text.subrange(
        spec_skip_ws(text, ob + 1),
        spec_skip_ws(text, ob + 1) + entries.len(),
    ) == entries) by {
        if entries.len() == 0 {
            lemma_skip_ws_at(text, ob + 1);
            assert(text.subrange(ob + 1, ob + 1) =~= entries);
        } else {
            assert(ps.len() > 0);
            lemma_render_entries_cons(ps);
            assert(entries[0] == '"');
            assert(text[ob + 1 + 0] == entries[0]);
            lemma_skip_ws_at(text, ob + 1);
            assert(text.subrange(ob + 1, ob + 1 + entries.len()) =~= entries) by {
                assert(forall|o: int|
                    0 <= o < entries.len() ==> text.subrange(ob + 1, ob + 1 + entries.len())[o]
                        == #[trigger] text[ob + 1 + o]);
            }
        }
    }
    lemma_json_entries_round_trip(text, ob + 1, ps);
    assert(spec_json_params(text, ob + 1) == Some((ps, text.len() - 1)));
    assert(spec_extract_json(text) == Some((name, ps)));
}

fn clone_param(p: &ParamValue) -> (r: ParamValue)
    ensures
        r@ == p@,
{
    match p {
        ParamValue::Text(s) => ParamValue::Text(s.clone()),
        ParamValue::Raw(s) => ParamValue::Raw(s.clone()),
    }
}

} // verus!
