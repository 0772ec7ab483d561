//! Default audio device routing: which PipeWire/Pulse device names match the
//! ALVR nodes, what to restore on disconnect, and the restore file's format.

use vstd::prelude::*;
use crate::text::{
    chars_of, chars_eq, chars_eq_ignore_ascii_case, eq_ignore_ascii_case, remove_ws, remove_ws_chars,
    remove_ws_underscore, remove_ws_underscore_chars,
    ascii_lower_seq, ascii_lower_chars, contains_seq, contains_chars, has_prefix, trim, trim_chars,
    skip_chars, lines, lines_of, views, starts_with_chars, string_from_chars, split_on, split_chars,
    strip_cr, lemma_lines_cons, first_word, first_word_chars, parse_u32_spec, parse_u32_chars,
};

verus! {

/// PipeWire node name for the game-audio capture sink (PC → HMD).
pub const ALVR_AUDIO_SINK_NAME: &'static str = "ALVR Audio";

/// PipeWire node name for the HMD microphone virtual source (HMD → PC).
pub const ALVR_MICROPHONE_SOURCE_NAME: &'static str = "ALVR Microphone";

/// File name of the restore file under the runtime directory.
pub const RESTORE_FILE_NAME: &'static str = "alvr-audio-defaults.restore";

/// Two device names denote the same device: equal, or equal up to ASCII case.
pub open spec fn names_match_spec(a: Seq<char>, b: Seq<char>) -> bool {
    a == b || eq_ignore_ascii_case(a, b)
}

pub fn names_match(a: &str, b: &str) -> (r: bool)
    ensures
        r == names_match_spec(a@, b@),
{
    let av = chars_of(a);
    let bv = chars_of(b);
    chars_eq(&av, &bv) || chars_eq_ignore_ascii_case(&av, &bv)
}

/// A listed name is a variant of the wanted one: equal up to ASCII case once
/// white space is removed, or once white space and underscores are removed
/// ("ALVR_Audio" for "ALVR Audio"), or containing it up to ASCII case.
pub open spec fn name_variant_of(n: Seq<char>, want: Seq<char>) -> bool {
    ||| eq_ignore_ascii_case(remove_ws(n), remove_ws(want))
    ||| eq_ignore_ascii_case(remove_ws_underscore(n), remove_ws_underscore(want))
    ||| contains_seq(ascii_lower_seq(n), ascii_lower_seq(want))
}

/// The device a wanted name resolves to among the listed names: the first
/// matching name, else the first variant of it, else none.
pub open spec fn found_device(names: Seq<String>, want: Seq<char>, r: Option<String>) -> bool {
    match r {
        Some(x) => exists|i: int|
            0 <= i < names.len() && x@ == (#[trigger] names[i])@ && {
                ||| names_match_spec(names[i]@, want) && forall|j: int|
                    0 <= j < i ==> !names_match_spec((#[trigger] names[j])@, want)
                ||| (forall|j: int|
                    0 <= j < names.len() ==> !names_match_spec((#[trigger] names[j])@, want))
                    && name_variant_of(names[i]@, want) && forall|j: int|
                    0 <= j < i ==> !name_variant_of((#[trigger] names[j])@, want)
            },
        None => forall|j: int|
            0 <= j < names.len() ==> !names_match_spec((#[trigger] names[j])@, want)
                && !name_variant_of(names[j]@, want),
    }
}

fn names_match_chars(a: &Vec<char>, b: &Vec<char>) -> (r: bool)
    ensures
        r == names_match_spec(a@, b@),
{
    chars_eq(a, b) || chars_eq_ignore_ascii_case(a, b)
}

/// Resolves a wanted device name among the names of the listed devices (an
/// exact name first, else a variant of it such as "ALVR_Audio").
pub fn find_named_device(names: &Vec<String>, want: &str) -> (r: Option<String>)
    ensures
        found_device(names@, want@, r),
{
    let wv = chars_of(want);
    let mut i: usize = 0;
    while i < names.len()
        invariant
            i <= names@.len(),
            wv@ == want@,
            forall|j: int| 0 <= j < i ==> !names_match_spec((#[trigger] names@[j])@, want@),
        decreases names@.len() - i,
    {
        let nv = chars_of(names[i].as_str());
        if names_match_chars(&nv, &wv) {
            let r = names[i].clone();
            assert(names@[i as int]@ == r@);
            return Some(r);
        }
        i = i + 1;
    }
    let want_compact = remove_ws_chars(&wv);
    let want_bare = remove_ws_underscore_chars(&wv);
    let want_lower = ascii_lower_chars(&wv);
    let mut k: usize = 0;
    while k < names.len()
        invariant
            k <= names@.len(),
            wv@ == want@,
            want_compact@ == remove_ws(want@),
            want_bare@ == remove_ws_underscore(want@),
            want_lower@ == ascii_lower_seq(want@),
            forall|j: int| 0 <= j < names@.len() ==> !names_match_spec((#[trigger] names@[j])@, want@),
            forall|j: int| 0 <= j < k ==> !name_variant_of((#[trigger] names@[j])@, want@),
        decreases names@.len() - k,
    {
        let nv = chars_of(names[k].as_str());
        let compact = remove_ws_chars(&nv);
        let bare = remove_ws_underscore_chars(&nv);
        let lower = ascii_lower_chars(&nv);
        if chars_eq_ignore_ascii_case(&compact, &want_compact)
            || chars_eq_ignore_ascii_case(&bare, &want_bare)
            || contains_chars(&lower, &want_lower)
        {
            let r = names[k].clone();
            assert(names@[k as int]@ == r@);
            return Some(r);
        }
        k = k + 1;
    }
    None
}

/// Whether a device of the given name is listed.
pub fn device_exists(names: &Vec<String>, name: &str) -> (b: bool)
    ensures
        b == (exists|i: int|
            0 <= i < names@.len() && (names_match_spec((#[trigger] names@[i])@, name@)
                || name_variant_of(names@[i]@, name@))),
{
    let r = find_named_device(names, name);
    proof {
        if r is None {
            assert(forall|i: int|
                0 <= i < names@.len() ==> !(names_match_spec((#[trigger] names@[i])@, name@)
                    || name_variant_of(names@[i]@, name@)));
        }
    }
    r.is_some()
}

/// The device to restore later: the current default when it is not the ALVR
/// node, else a previously saved one that is not the ALVR node, else none.
pub open spec fn previous_device(
    current: Option<Seq<char>>,
    saved: Option<Seq<char>>,
    alvr_name: Seq<char>,
) -> Option<Seq<char>> {
    match current {
        Some(c) if !names_match_spec(c, alvr_name) => Some(c),
        _ => match saved {
            Some(s) if !names_match_spec(s, alvr_name) => Some(s),
            _ => None,
        },
    }
}

pub open spec fn opt_view(o: Option<String>) -> Option<Seq<char>> {
    match o {
        Some(s) => Some(s@),
        None => None,
    }
}

/// Chooses a non-ALVR device name to restore later.
pub fn capture_previous_device(current: Option<String>, saved: Option<String>, alvr_name: &str) -> (r:
    Option<String>)
    ensures
        opt_view(r) == previous_device(opt_view(current), opt_view(saved), alvr_name@),
        r matches Some(n) ==> !names_match_spec(n@, alvr_name@),
{
    match current {
        Some(name) if !names_match(name.as_str(), alvr_name) => Some(name),
        _ => match saved {
            Some(s) if !names_match(s.as_str(), alvr_name) => Some(s),
            _ => None,
        },
    }
}

/// The value after `key` on a line, trimmed; none when the line does not start
/// with `key` or the value is empty.
pub open spec fn keyed_value(line: Seq<char>, key: Seq<char>) -> Option<Seq<char>> {
    if has_prefix(line, key) && trim(line.skip(key.len() as int)).len() > 0 {
        Some(trim(line.skip(key.len() as int)))
    } else {
        None
    }
}

/// The sink and source names that restore-file lines give; a later line wins.
pub open spec fn restore_entries(ls: Seq<Seq<char>>) -> (Option<Seq<char>>, Option<Seq<char>>)
    decreases ls.len(),
{
    if ls.len() == 0 {
        (None, None)
    } else {
        let (a, b) = restore_entries(ls.drop_last());
        let l = ls.last();
        if has_prefix(l, "sink="@) {
            match keyed_value(l, "sink="@) {
                Some(v) => (Some(v), b),
                None => (a, b),
            }
        } else if has_prefix(l, "source="@) {
            match keyed_value(l, "source="@) {
                Some(v) => (a, Some(v)),
                None => (a, b),
            }
        } else {
            (a, b)
        }
    }
}

fn keyed_value_chars(line: &Vec<char>, key: &Vec<char>) -> (r: Option<Vec<char>>)
    requires
        has_prefix(line@, key@),
    ensures
        match r {
            Some(v) => keyed_value(line@, key@) == Some(v@),
            None => keyed_value(line@, key@) is None,
        },
{
    let rest = skip_chars(line, key.len());
    let t = trim_chars(&rest);
    if t.len() > 0 {
        Some(t)
    } else {
        None
    }
}

/// The previous sink and source saved in a restore file's contents.
pub fn parse_restore_file(contents: &str) -> (r: (Option<String>, Option<String>))
    ensures
        (opt_view(r.0), opt_view(r.1)) == restore_entries(lines(contents@)),
{
    let cv = chars_of(contents);
    let ls = lines_of(&cv);
    let sink_key = chars_of("sink=");
    let source_key = chars_of("source=");
    let mut previous_sink: Option<String> = None;
    let mut previous_source: Option<String> = None;
    let mut i: usize = 0;
    while i < ls.len()
        invariant
            i <= ls@.len(),
            views(ls@) == lines(contents@),
            sink_key@ == "sink="@,
            source_key@ == "source="@,
            (opt_view(previous_sink), opt_view(previous_source)) == restore_entries(
                views(ls@).take(i as int),
            ),
        decreases ls@.len() - i,
    {
        let line = &ls[i];
        proof {
            assert(views(ls@).take(i + 1).drop_last() =~= views(ls@).take(i as int));
            assert(views(ls@).take(i + 1).last() == line@);
        }
        if starts_with_chars(line, &sink_key) {
            match keyed_value_chars(line, &sink_key) {
                Some(v) => {
                    previous_sink = Some(string_from_chars(&v));
                },
                None => {},
            }
        } else if starts_with_chars(line, &source_key) {
            match keyed_value_chars(line, &source_key) {
                Some(v) => {
                    previous_source = Some(string_from_chars(&v));
                },
                None => {},
            }
        }
        i = i + 1;
    }
    assert(views(ls@).take(ls@.len() as int) =~= views(ls@));
    (previous_sink, previous_source)
}


/// A device name kept only when it is not the ALVR node.
pub open spec fn non_alvr(o: Option<Seq<char>>, alvr_name: Seq<char>) -> Option<Seq<char>> {
    match o {
        Some(n) if !names_match_spec(n, alvr_name) => Some(n),
        _ => None,
    }
}

/// The restore file's text for a sink and a source: a `sink=` line and a
/// `source=` line, each present when its name is.
pub open spec fn restore_body(sink: Option<Seq<char>>, source: Option<Seq<char>>) -> Seq<char> {
    let a = match sink {
        Some(n) => ("sink="@ + n).push('\n'),
        None => Seq::<char>::empty(),
    };
    let b = match source {
        Some(n) => ("source="@ + n).push('\n'),
        None => Seq::<char>::empty(),
    };
    a + b
}

pub open spec fn str_opt_view(o: Option<&str>) -> Option<Seq<char>> {
    match o {
        Some(s) => Some(s@),
        None => None,
    }
}

fn push_all(v: &mut Vec<char>, s: &str)
    ensures
        final(v)@ == old(v)@ + s@,
{
    let c = chars_of(s);
    let mut i: usize = 0;
    let ghost start = v@;
    while i < c.len()
        invariant
            i <= c@.len(),
            c@ == s@,
            v@ == start + c@.take(i as int),
        decreases c@.len() - i,
    {
        v.push(c[i]);
        i = i + 1;
        assert(start + c@.take(i as int) =~= (start + c@.take(i - 1)).push(c@[i - 1]));
    }
    assert(c@.take(c@.len() as int) =~= c@);
}

/// The restore file's contents for the previous sink and source; ALVR node names
/// are never saved. `None` when nothing is left to save (the file is removed).
pub fn restore_file_body(sink: Option<&str>, source: Option<&str>) -> (r: Option<String>)
    ensures
        ({
            let a = non_alvr(str_opt_view(sink), ALVR_AUDIO_SINK_NAME@);
            let b = non_alvr(str_opt_view(source), ALVR_MICROPHONE_SOURCE_NAME@);
            &&& r is None <==> (a is None && b is None)
            &&& r matches Some(body) ==> body@ == restore_body(a, b)
        }),
{
    let sink = match sink {
        Some(s) if !names_match(s, ALVR_AUDIO_SINK_NAME) => Some(s),
        _ => None,
    };
    let source = match source {
        Some(s) if !names_match(s, ALVR_MICROPHONE_SOURCE_NAME) => Some(s),
        _ => None,
    };
    if sink.is_none() && source.is_none() {
        return None;
    }
    let mut body: Vec<char> = Vec::new();
    match sink {
        Some(s) => {
            push_all(&mut body, "sink=");
            push_all(&mut body, s);
            body.push('\n');
        },
        None => {},
    }
    let ghost after_sink = body@;
    match source {
        Some(s) => {
            push_all(&mut body, "source=");
            push_all(&mut body, s);
            body.push('\n');
        },
        None => {},
    }
    assert(body@ =~= restore_body(str_opt_view(sink), str_opt_view(source)));
    Some(string_from_chars(&body))
}

/// A name the restore file keeps as it is: non-empty, without a line break, and
/// without white space at either end.
pub open spec fn restorable_name(n: Seq<char>) -> bool {
    &&& n.len() > 0
    &&& !n.contains('\n')
    &&& !crate::text::is_white_space(n[0])
    &&& !crate::text::is_white_space(n.last())
}

pub open spec fn restorable(o: Option<Seq<char>>) -> bool {
    o matches Some(n) ==> restorable_name(n)
}

proof fn lemma_keyed_line(key: Seq<char>, n: Seq<char>)
    requires
        restorable_name(n),
        key.len() > 0,
        !key.contains('\n'),
    ensures
        !(key + n).contains('\n'),
        strip_cr(key + n) == key + n,
        has_prefix(key + n, key),
        keyed_value(key + n, key) == Some(n),
{
    let l = key + n;
    assert(l.take(key.len() as int) =~= key);
    assert(l.skip(key.len() as int) =~= n);
    assert(!l.contains('\n')) by {
        if l.contains('\n') {
            let i = choose|i: int| 0 <= i < l.len() && l[i] == '\n';
            if i < key.len() {
                assert(key[i] == '\n');
            } else {
                assert(n[i - key.len()] == '\n');
            }
        }
    }
    assert(l.last() == n.last());
    assert(crate::text::leading_ws(n) == 0);
    assert(n.skip(0) =~= n);
    assert(crate::text::trailing_ws(n) == 0);
    assert(n.take(n.len() as int) =~= n);
    assert(trim(n) == n);
    assert(l.len() > 0 && l.last() != '\r');
}

/// Reading back a restore file gives the names it was written with.
pub proof fn lemma_restore_file_round_trip(sink: Option<Seq<char>>, source: Option<Seq<char>>)
    requires
        restorable(sink),
        restorable(source),
    ensures
        restore_entries(lines(restore_body(sink, source))) == (sink, source),
{
    reveal_strlit("sink=");
    reveal_strlit("source=");
    let sk = "sink="@;
    let sr = "source="@;
    assert(!sk.contains('\n'));
    assert(!sr.contains('\n'));
    let e = Seq::<char>::empty();
    let body = restore_body(sink, source);
    assert(lines(e) =~= Seq::<Seq<char>>::empty());
    match (sink, source) {
        (Some(n), Some(m)) => {
            lemma_keyed_line(sk, n);
            lemma_keyed_line(sr, m);
            lemma_lines_cons(sr + m, e);
            assert((sr + m).push('\n') + e =~= (sr + m).push('\n'));
            lemma_lines_cons(sk + n, (sr + m).push('\n'));
            assert(body =~= (sk + n).push('\n') + (sr + m).push('\n'));
            let ls = lines(body);
            assert(ls =~= seq![sk + n, sr + m]);
            assert(!has_prefix(sr + m, sk)) by {
                assert((sr + m).take(sk.len() as int)[1] != sk[1]);
            }
            assert(ls.drop_last() =~= seq![sk + n]);
            assert(seq![sk + n].drop_last() =~= Seq::<Seq<char>>::empty());
            assert(restore_entries(Seq::<Seq<char>>::empty()) == (None::<Seq<char>>, None::<Seq<char>>));
            assert(seq![sk + n].last() == sk + n);
            assert(restore_entries(seq![sk + n]) == (Some(n), None::<Seq<char>>));
            assert(ls.last() == sr + m);
            assert(restore_entries(ls) == (Some(n), Some(m)));
        },
        (Some(n), None) => {
            lemma_keyed_line(sk, n);
            lemma_lines_cons(sk + n, e);
            assert(body =~= (sk + n).push('\n') + e);
            let ls = lines(body);
            assert(ls =~= seq![sk + n]);
            assert(ls.drop_last() =~= Seq::<Seq<char>>::empty());
            assert(ls.last() == sk + n);
            assert(restore_entries(Seq::<Seq<char>>::empty()) == (None::<Seq<char>>, None::<Seq<char>>));
            assert(restore_entries(ls) == (Some(n), None::<Seq<char>>));
        },
        (None, Some(m)) => {
            lemma_keyed_line(sr, m);
            lemma_lines_cons(sr + m, e);
            assert(body =~= (sr + m).push('\n') + e);
            let ls = lines(body);
            assert(ls =~= seq![sr + m]);
            assert(!has_prefix(sr + m, sk)) by {
                assert((sr + m).take(sk.len() as int)[1] != sk[1]);
            }
            assert(ls.drop_last() =~= Seq::<Seq<char>>::empty());
            assert(ls.last() == sr + m);
            assert(restore_entries(Seq::<Seq<char>>::empty()) == (None::<Seq<char>>, None::<Seq<char>>));
            assert(restore_entries(ls) == (None::<Seq<char>>, Some(m)));
        },
        (None, None) => {
            assert(body =~= e);
        },
    }
}

/// The name on one line of `pactl list short sinks|sources`: the second
/// tab-separated column, trimmed; none when missing or empty.
pub open spec fn short_name(line: Seq<char>) -> Option<Seq<char>> {
    let cols = split_on(line, '\t');
    if cols.len() >= 2 && trim(cols[1]).len() > 0 {
        Some(trim(cols[1]))
    } else {
        None
    }
}

/// The names on the lines, in order.
pub open spec fn short_names(ls: Seq<Seq<char>>) -> Seq<Seq<char>>
    decreases ls.len(),
{
    if ls.len() == 0 {
        Seq::<Seq<char>>::empty()
    } else {
        let prev = short_names(ls.drop_last());
        match short_name(ls.last()) {
            Some(n) => prev.push(n),
            None => prev,
        }
    }
}

pub open spec fn string_views(v: Seq<String>) -> Seq<Seq<char>> {
    v.map_values(|s: String| s@)
}

/// The device names in the output of `pactl list short sinks|sources`.
pub fn parse_short_names(out: &str) -> (r: Vec<String>)
    ensures
        string_views(r@) == short_names(lines(out@)),
{
    let ov = chars_of(out);
    let ls = lines_of(&ov);
    let mut names: Vec<String> = Vec::new();
    let mut i: usize = 0;
    while i < ls.len()
        invariant
            i <= ls@.len(),
            views(ls@) == lines(out@),
            string_views(names@) == short_names(views(ls@).take(i as int)),
        decreases ls@.len() - i,
    {
        proof {
            assert(views(ls@).take(i + 1).drop_last() =~= views(ls@).take(i as int));
            assert(views(ls@).take(i + 1).last() == ls@[i as int]@);
        }
        let cols = split_chars(&ls[i], '\t');
        if cols.len() >= 2 {
            let name = trim_chars(&cols[1]);
            proof {
                assert(crate::text::views(cols@)[1] == cols@[1]@);
            }
            if name.len() > 0 {
                let ghost before = string_views(names@);
                names.push(string_from_chars(&name));
                assert(string_views(names@) =~= before.push(name@));
            }
        }
        i = i + 1;
    }
    assert(views(ls@).take(ls@.len() as int) =~= views(ls@));
    names
}

/// The sink-input id on one line of `pactl list short sink-inputs`: the first
/// tab-separated column, trimmed; none when empty.
pub open spec fn sink_input_id(line: Seq<char>) -> Option<Seq<char>> {
    let id = trim(split_on(line, '\t')[0]);
    if id.len() > 0 {
        Some(id)
    } else {
        None
    }
}

pub open spec fn sink_input_id_list(ls: Seq<Seq<char>>) -> Seq<Seq<char>>
    decreases ls.len(),
{
    if ls.len() == 0 {
        Seq::<Seq<char>>::empty()
    } else {
        let prev = sink_input_id_list(ls.drop_last());
        match sink_input_id(ls.last()) {
            Some(n) => prev.push(n),
            None => prev,
        }
    }
}

/// The sink-input ids in the output of `pactl list short sink-inputs`.
pub fn sink_input_ids(out: &str) -> (r: Vec<String>)
    ensures
        string_views(r@) == sink_input_id_list(lines(out@)),
{
    let ov = chars_of(out);
    let ls = lines_of(&ov);
    let mut ids: Vec<String> = Vec::new();
    let mut i: usize = 0;
    while i < ls.len()
        invariant
            i <= ls@.len(),
            views(ls@) == lines(out@),
            string_views(ids@) == sink_input_id_list(views(ls@).take(i as int)),
        decreases ls@.len() - i,
    {
        proof {
            assert(views(ls@).take(i + 1).drop_last() =~= views(ls@).take(i as int));
            assert(views(ls@).take(i + 1).last() == ls@[i as int]@);
            crate::text::lemma_split_on_nonempty(ls@[i as int]@, '\t');
        }
        let cols = split_chars(&ls[i], '\t');
        let id = trim_chars(&cols[0]);
        proof {
            assert(crate::text::views(cols@)[0] == cols@[0]@);
        }
        if id.len() > 0 {
            let ghost before = string_views(ids@);
            ids.push(string_from_chars(&id));
            assert(string_views(ids@) =~= before.push(id@));
        }
        i = i + 1;
    }
    assert(views(ls@).take(ls@.len() as int) =~= views(ls@));
    ids
}

/// The user id in the text of `/proc/self/status`: the first word after the first
/// line that starts with `Uid:`, as a number.
pub open spec fn uid_of_lines(ls: Seq<Seq<char>>) -> Option<u32>
    decreases ls.len(),
{
    if ls.len() == 0 {
        None
    } else if has_prefix(ls[0], "Uid:"@) {
        match first_word(ls[0].skip(4)) {
            Some(w) => parse_u32_spec(w),
            None => None,
        }
    } else {
        uid_of_lines(ls.drop_first())
    }
}

/// The user id in the text of `/proc/self/status`.
pub fn parse_uid(status: &str) -> (r: Option<u32>)
    ensures
        r == uid_of_lines(lines(status@)),
{
    proof {
        reveal_strlit("Uid:");
    }
    let sv = chars_of(status);
    let ls = lines_of(&sv);
    let key = chars_of("Uid:");
    let mut i: usize = 0;
    assert(views(ls@).skip(0) =~= views(ls@));
    while i < ls.len()
        invariant
            i <= ls@.len(),
            key@ == "Uid:"@,
            views(ls@) == lines(status@),
            uid_of_lines(views(ls@)) == uid_of_lines(views(ls@).skip(i as int)),
        decreases ls@.len() - i,
    {
        let ghost rest = views(ls@).skip(i as int);
        proof {
            assert(rest[0] == ls@[i as int]@);
            assert(rest.drop_first() =~= views(ls@).skip(i + 1));
        }
        if starts_with_chars(&ls[i], &key) {
            proof {
                reveal_strlit("Uid:");
            }
            assert(key@.len() == 4);
            let tail = skip_chars(&ls[i], 4);
            return match first_word_chars(&tail) {
                Some(w) => parse_u32_chars(&w),
                None => None,
            };
        }
        i = i + 1;
    }
    None
}

/// Whether `pactl info` output shows a live session.
pub fn pactl_info_ok(info: &str) -> (b: bool)
    ensures
        b == (contains_seq(info@, "Server Name:"@) || contains_seq(info@, "Default Sink:"@)),
{
    let iv = chars_of(info);
    contains_chars(&iv, &chars_of("Server Name:")) || contains_chars(&iv, &chars_of("Default Sink:"))
}

/// Whether the current default already is the resolved ALVR device (or the ALVR name).
pub fn default_already_set(current: Option<&str>, resolved: &str, alvr_name: &str) -> (b: bool)
    ensures
        b == (current matches Some(c) && (names_match_spec(c@, resolved@) || names_match_spec(
            c@,
            alvr_name@,
        ))),
{
    match current {
        Some(c) => names_match(c, resolved) || names_match(c, alvr_name),
        None => false,
    }
}

/// After an unclean exit: whether to restore `previous` as the default, given the
/// current default and whether it is still listed. Only when the current default
/// is missing, the ALVR node or gone, and `previous` is not the ALVR node.
pub fn stale_should_restore(previous: &str, current: Option<&str>, current_listed: bool, alvr_name: &str) -> (b:
    bool)
    ensures
        b == ((match current {
            None => true,
            Some(c) => names_match_spec(c@, alvr_name@) || !current_listed,
        }) && !names_match_spec(previous@, alvr_name@)),
{
    let should = match current {
        None => true,
        Some(c) => names_match(c, alvr_name) || !current_listed,
    };
    should && !names_match(previous, alvr_name)
}

/// On disconnect: the saved device to make the default again, unless it is the
/// ALVR node.
pub fn restore_target(previous: &Option<String>, alvr_name: &str) -> (r: Option<String>)
    ensures
        opt_view(r) == non_alvr(opt_view(*previous), alvr_name@),
{
    match previous {
        Some(p) if !names_match(p.as_str(), alvr_name) => Some(p.clone()),
        _ => None,
    }
}


/// Number of bytes of whole frames of `channels` 16-bit samples in a chunk of
/// `chunk_size` bytes.
pub open spec fn captured_len(chunk_size: u32, channels: u16) -> int {
    let stride = 2 * channels as int;
    (chunk_size as int / stride) * stride
}

/// The bytes of one captured buffer that are sent on: the whole frames of
/// `channels` 16-bit samples that the chunk holds, from the start of the data.
pub fn captured_frames(data: &[u8], chunk_size: u32, channels: u16) -> (r: Vec<u8>)
    requires
        channels > 0,
        captured_len(chunk_size, channels) <= data@.len(),
    ensures
        r@ == data@.take(captured_len(chunk_size, channels)),
{
    let stride: u32 = 2 * (channels as u32);
    let n_frames: u32 = chunk_size / stride;
    assert(n_frames as int * stride as int <= chunk_size as int) by (nonlinear_arith)
        requires
            stride > 0,
            n_frames == chunk_size as int / stride as int,
    ;
    let total: u32 = n_frames * stride;
    assert(total == captured_len(chunk_size, channels));
    let total: usize = total as usize;
    let mut r: Vec<u8> = Vec::new();
    let mut i: usize = 0;
    while i < total
        invariant
            i <= total <= data@.len(),
            r@ == data@.take(i as int),
        decreases total - i,
    {
        r.push(data[i]);
        i = i + 1;
        assert(data@.take(i as int) =~= data@.take(i - 1).push(data@[i - 1]));
    }
    r
}


/// Frames of `channels` 32-bit float samples written into one playback buffer
/// of `slice_len` bytes when the graph asked for `requested` frames.
pub open spec fn playback_frames(requested: u64, slice_len: int, channels: u16) -> int {
    let fit = slice_len / (4 * channels as int);
    if (requested as int) < fit { requested as int } else { fit }
}

/// The layout of one playback buffer: the number of frames filled, the chunk
/// size in bytes (as the 32-bit field holds it) and the stride of one frame.
pub fn playback_chunk(requested: u64, slice_len: usize, channels: u16) -> (r: (usize, u32, i32))
    requires
        channels > 0,
    ensures
        r.0 == playback_frames(requested, slice_len as int, channels),
        r.1 == (4 * channels as int * r.0) % 0x1_0000_0000,
        r.2 == 4 * channels as int,
{
    let stride: usize = 4 * (channels as usize);
    let fit: usize = slice_len / stride;
    let n_frames: usize = if requested < fit as u64 { requested as usize } else { fit };
    assert(n_frames as int * stride as int <= slice_len as int) by (nonlinear_arith)
        requires
            stride > 0,
            fit == slice_len as int / stride as int,
            n_frames <= fit,
    ;
    let bytes: usize = n_frames * stride;
    assert(bytes as int == 4 * channels as int * n_frames as int) by (nonlinear_arith)
        requires
            bytes as int == n_frames as int * stride as int,
            stride as int == 4 * channels as int,
    ;
    let bytes64: u64 = bytes as u64;
    let size: u32 = (bytes64 % 0x1_0000_0000) as u32;
    (n_frames, size, (4 * (channels as u32)) as i32)
}

/// Byte `k` (from 0, least significant first) of `bits` in little-endian order.
pub open spec fn le_byte(bits: u32, k: int) -> u8 {
    ((bits >> (8 * k) as u32) & 0xff) as u8
}

/// Writes the little-endian bytes of `bits` as the first channel of frame
/// `frame`, where a frame holds `channels` 32-bit samples; other bytes stay.
pub fn write_frame_sample(slice: &mut [u8], frame: usize, channels: u16, bits: u32)
    requires
        frame as int * (4 * channels as int) + 4 <= old(slice)@.len(),
    ensures
        final(slice)@.len() == old(slice)@.len(),
        forall|i: int|
            0 <= i < old(slice)@.len() ==> #[trigger] final(slice)@[i] == {
                let start = frame as int * (4 * channels as int);
                if start <= i < start + 4 {
                    le_byte(bits, i - start)
                } else {
                    old(slice)@[i]
                }
            },
{
    let stride: usize = 4 * (channels as usize);
    let len: usize = slice.len();
    assert(frame as int * stride as int == frame as int * (4 * channels as int));
    assert(frame as int * stride as int + 4 <= len);
    let start: usize = frame * stride;
    slice[start] = ((bits >> 0u32) & 0xff) as u8;
    slice[start + 1] = ((bits >> 8u32) & 0xff) as u8;
    slice[start + 2] = ((bits >> 16u32) & 0xff) as u8;
    slice[start + 3] = ((bits >> 24u32) & 0xff) as u8;
}

/// Number of frames at `sample_rate` that `ms` milliseconds hold, rounded down.
pub fn frames_in_ms(sample_rate: u32, ms: u64) -> (r: usize)
    requires
        ms <= usize::MAX,
        sample_rate as int * ms as int <= usize::MAX,
    ensures
        r == (sample_rate as int * ms as int) / 1000,
{
    let rate: usize = sample_rate as usize;
    let span: usize = ms as usize;
    rate * span / 1000
}

} // verus!
