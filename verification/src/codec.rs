//! The on-disk text shape of documents: a frontmatter block of
//! `key: value` lines between two `---` delimiter lines, then the body.
//! Parsing fails `Corrupt` unless both delimiters are present and every
//! frontmatter line — the mandatory `uuid` and `type` among them — is
//! well-formed.

use vstd::prelude::*;

use crate::doc::{DocModel, Document};
use crate::fm::{items_model, AnalysisData, ChecklistItem, Fm, FmVal, FmValue};
use crate::ids::{id_text, id_text_of, parse_id, parsed_id_of, DocId};
use crate::storage::Index;
use crate::store::Fingerprint;
use crate::text::{chars_vec, string_from_chars, u64_dec, u64_dec_vec};
use crate::StoreError;

verus! {

/// The index of the first occurrence of a character.
pub open spec fn first_at(s: Seq<char>, c: char) -> Option<int>
    decreases s.len(),
{
    if s.len() == 0 {
        None
    } else if s[0] == c {
        Some(0int)
    } else {
        match first_at(s.drop_first(), c) {
            Some(k) => Some(k + 1),
            None => None,
        }
    }
}

/// Where a forward scan finds the first occurrence, that is `first_at`.
pub proof fn lemma_first_at_some(s: Seq<char>, c: char, k: int)
    requires
        0 <= k < s.len(),
        s[k] == c,
        forall|j: int| 0 <= j < k ==> s[j] != c,
    ensures
        first_at(s, c) == Some(k),
    decreases s.len(),
{
    if k > 0 {
        let t = s.drop_first();
        assert(forall|j: int| 0 <= j < k - 1 ==> t[j] == s[j + 1] && t[j] != c);
        lemma_first_at_some(t, c, k - 1);
    }
}

/// A found first occurrence lies in range and is the character.
pub proof fn lemma_first_at_bounds(s: Seq<char>, c: char)
    ensures
        match first_at(s, c) {
            Some(k) => 0 <= k < s.len() && s[k] == c,
            None => true,
        },
    decreases s.len(),
{
    if s.len() > 0 && s[0] != c {
        lemma_first_at_bounds(s.drop_first(), c);
    }
}

/// Where a forward scan finds no occurrence, `first_at` is none.
pub proof fn lemma_first_at_none(s: Seq<char>, c: char)
    requires
        forall|j: int| 0 <= j < s.len() ==> s[j] != c,
    ensures
        first_at(s, c) is None,
    decreases s.len(),
{
    if s.len() > 0 {
        let t = s.drop_first();
        assert(forall|j: int| 0 <= j < t.len() ==> t[j] == s[j + 1] && t[j] != c);
        lemma_first_at_none(t, c);
    }
}

/// The segments between occurrences of a separator; always at least one
/// segment, and none contains the separator.
pub open spec fn split_on(s: Seq<char>, c: char) -> Seq<Seq<char>>
    decreases s.len(),
{
    match first_at(s, c) {
        None => seq![s],
        Some(k) => if 0 <= k < s.len() {
            seq![s.subrange(0, k)] + split_on(s.subrange(k + 1, s.len() as int), c)
        } else {
            seq![s]
        },
    }
}

/// The segments joined back with the separator.
pub open spec fn join_with(l: Seq<Seq<char>>, c: char) -> Seq<char>
    decreases l.len(),
{
    if l.len() == 0 {
        Seq::empty()
    } else if l.len() == 1 {
        l[0]
    } else {
        join_with(l.drop_last(), c) + seq![c] + l.last()
    }
}

/// The models of a vector of character vectors.
pub open spec fn segs_model(s: Seq<Vec<char>>) -> Seq<Seq<char>> {
    s.map_values(|v: Vec<char>| v@)
}

/// Copy a range of characters.
pub fn copy_range(v: &Vec<char>, a: usize, b: usize) -> (r: Vec<char>)
    requires
        a <= b <= v@.len(),
    ensures
        r@ == v@.subrange(a as int, b as int),
{
    let mut out: Vec<char> = Vec::new();
    let mut i: usize = a;
    while i < b
        invariant
            a <= i <= b <= v@.len(),
            out@ == v@.subrange(a as int, i as int),
        decreases b - i,
    {
        out.push(v[i]);
        proof {
            assert(out@ =~= v@.subrange(a as int, i + 1));
        }
        i = i + 1;
    }
    out
}

/// Split characters on a separator.
pub fn split_chars(v: &Vec<char>, c: char) -> (r: Vec<Vec<char>>)
    ensures
        segs_model(r@) == split_on(v@, c),
{
    let n: usize = v.len();
    let mut out: Vec<Vec<char>> = Vec::new();
    let mut start: usize = 0;
    let mut i: usize = 0;
    proof {
        assert(v@.subrange(0, n as int) =~= v@);
        assert(segs_model(out@) + split_on(v@, c) =~= split_on(v@, c));
    }
    while i < n
        invariant
            n == v@.len(),
            0 <= start <= i <= n,
            forall|j: int| start <= j < i ==> v@[j] != c,
            split_on(v@, c) == segs_model(out@) + split_on(
                v@.subrange(start as int, n as int),
                c,
            ),
        decreases n - i,
    {
        if v[i] == c {
            let seg = copy_range(v, start, i);
            proof {
                let suffix = v@.subrange(start as int, n as int);
                assert(forall|j: int|
                    0 <= j < i - start ==> suffix[j] == v@[start + j] && suffix[j] != c);
                assert(suffix[i - start] == c);
                lemma_first_at_some(suffix, c, i - start);
                assert(suffix.subrange(0, i - start) =~= v@.subrange(start as int, i as int));
                assert(suffix.subrange(i - start + 1, suffix.len() as int) =~= v@.subrange(
                    i + 1,
                    n as int,
                ));
                let ghost pre = out@;
                assert(segs_model(pre.push(seg)) =~= segs_model(pre).push(seg@));
                assert(segs_model(pre) + (seq![seg@] + split_on(v@.subrange(i + 1, n as int), c))
                    =~= segs_model(pre.push(seg)) + split_on(v@.subrange(i + 1, n as int), c));
            }
            out.push(seg);
            start = i + 1;
        }
        i = i + 1;
    }
    let seg = copy_range(v, start, n);
    proof {
        let suffix = v@.subrange(start as int, n as int);
        assert(forall|j: int| 0 <= j < suffix.len() ==> suffix[j] == v@[start + j] && suffix[j] != c);
        lemma_first_at_none(suffix, c);
        let ghost pre = out@;
        assert(segs_model(pre.push(seg)) =~= segs_model(pre).push(seg@));
        assert(segs_model(pre) + seq![suffix] =~= segs_model(pre.push(seg)));
    }
    out.push(seg);
    out
}

/// Join character segments with a separator.
pub fn join_chars(l: &Vec<Vec<char>>, c: char) -> (r: Vec<char>)
    ensures
        r@ == join_with(segs_model(l@), c),
{
    let mut out: Vec<char> = Vec::new();
    let mut i: usize = 0;
    while i < l.len()
        invariant
            0 <= i <= l@.len(),
            i == 0 ==> out@ == Seq::<char>::empty(),
            i > 0 ==> out@ == join_with(segs_model(l@).subrange(0, i as int), c),
        decreases l@.len() - i,
    {
        if i > 0 {
            out.push(c);
        }
        let mut seg = copy_range(&l[i], 0, l[i].len());
        proof {
            assert(seg@ =~= segs_model(l@)[i as int]);
        }
        out.append(&mut seg);
        proof {
            let m = segs_model(l@);
            if i == 0 {
                assert(m.subrange(0, 1).len() == 1);
                assert(out@ =~= join_with(m.subrange(0, 1), c));
            } else {
                assert(m.subrange(0, i + 1).drop_last() =~= m.subrange(0, i as int));
                assert(m.subrange(0, i + 1).last() == m[i as int]);
                assert(out@ =~= join_with(m.subrange(0, i + 1), c));
            }
        }
        i = i + 1;
    }
    proof {
        if l@.len() == 0 {
            assert(out@ =~= join_with(segs_model(l@), c));
        } else {
            assert(segs_model(l@).subrange(0, l@.len() as int) =~= segs_model(l@));
        }
    }
    out
}


/// The digit value of a decimal character.
pub open spec fn digit_of(c: char) -> Option<u64> {
    if c == '0' {
        Some(0u64)
    } else if c == '1' {
        Some(1u64)
    } else if c == '2' {
        Some(2u64)
    } else if c == '3' {
        Some(3u64)
    } else if c == '4' {
        Some(4u64)
    } else if c == '5' {
        Some(5u64)
    } else if c == '6' {
        Some(6u64)
    } else if c == '7' {
        Some(7u64)
    } else if c == '8' {
        Some(8u64)
    } else if c == '9' {
        Some(9u64)
    } else {
        None
    }
}

/// Fold decimal digits onto an accumulator; `None` on a non-digit or
/// when the value would not fit.
pub open spec fn dec_val_from(s: Seq<char>, acc: u64) -> Option<u64>
    decreases s.len(),
{
    if s.len() == 0 {
        Some(acc)
    } else {
        match digit_of(s[0]) {
            None => None,
            Some(d) => if acc > (u64::MAX - d) / 10 {
                None
            } else {
                dec_val_from(s.drop_first(), (acc * 10 + d) as u64)
            },
        }
    }
}

/// The number a digit string denotes; `None` when empty, non-numeric or
/// out of range.
pub open spec fn dec_val(s: Seq<char>) -> Option<u64> {
    if s.len() == 0 {
        None
    } else {
        dec_val_from(s, 0)
    }
}

/// Parse a decimal number.
pub fn parse_u64(v: &Vec<char>) -> (r: Option<u64>)
    ensures
        r == dec_val(v@),
{
    if v.len() == 0 {
        return None;
    }
    let mut acc: u64 = 0;
    let mut i: usize = 0;
    proof {
        assert(v@.subrange(0, v@.len() as int) =~= v@);
    }
    while i < v.len()
        invariant
            0 <= i <= v@.len(),
            dec_val_from(v@, 0) == dec_val_from(v@.subrange(i as int, v@.len() as int), acc),
        decreases v@.len() - i,
    {
        let c = v[i];
        let d: u64 = match c {
            '0' => 0,
            '1' => 1,
            '2' => 2,
            '3' => 3,
            '4' => 4,
            '5' => 5,
            '6' => 6,
            '7' => 7,
            '8' => 8,
            '9' => 9,
            _ => {
                proof {
                    assert(v@.subrange(i as int, v@.len() as int)[0] == c);
                }
                return None;
            },
        };
        proof {
            assert(v@.subrange(i as int, v@.len() as int)[0] == c);
        }
        if acc > (u64::MAX - d) / 10 {
            return None;
        }
        proof {
            assert(acc * 10 + d <= u64::MAX) by (nonlinear_arith)
                requires
                    acc <= (u64::MAX - d) / 10,
                    d <= 9,
            ;
            assert(v@.subrange(i as int, v@.len() as int).drop_first() =~= v@.subrange(
                i + 1,
                v@.len() as int,
            ));
        }
        acc = acc * 10 + d;
        i = i + 1;
    }
    proof {
        assert(v@.subrange(v@.len() as int, v@.len() as int) =~= Seq::<char>::empty());
        assert(v@.subrange(0, v@.len() as int) =~= v@);
    }
    Some(acc)
}

/// One item as text: id, text and checked flag, pipe-separated.
pub open spec fn item_text(it: (Seq<char>, Seq<char>, bool)) -> Seq<char> {
    it.0 + seq!['|'] + it.1 + seq!['|'] + (if it.2 {
        seq!['1']
    } else {
        seq!['0']
    })
}

/// The items' texts, in order.
pub open spec fn items_texts(items: Seq<(Seq<char>, Seq<char>, bool)>) -> Seq<Seq<char>> {
    items.map_values(|it: (Seq<char>, Seq<char>, bool)| item_text(it))
}

/// The tag written before a value.
pub open spec fn tag_of(v: FmVal) -> Seq<char> {
    match v {
        FmVal::Null => "null"@,
        FmVal::Text(_) => "str"@,
        FmVal::Num(_) => "num"@,
        FmVal::Flag(_) => "bool"@,
        FmVal::Items(_) => "items"@,
        FmVal::Analysis(_, _, _) => "analysis"@,
    }
}

/// The payload written after the tag.
pub open spec fn payload_of(v: FmVal) -> Seq<char> {
    match v {
        FmVal::Null => Seq::empty(),
        FmVal::Text(s) => s,
        FmVal::Num(n) => u64_dec(n),
        FmVal::Flag(b) => if b {
            "true"@
        } else {
            "false"@
        },
        FmVal::Items(items) => join_with(items_texts(items), ';'),
        FmVal::Analysis(a, b, c) => a + seq!['|'] + b + seq!['|'] + c,
    }
}

/// A value as text: the tag, then a space and the payload unless the
/// payload is empty.
pub open spec fn value_text(v: FmVal) -> Seq<char> {
    if payload_of(v).len() == 0 {
        tag_of(v)
    } else {
        tag_of(v) + seq![' '] + payload_of(v)
    }
}

/// One frontmatter entry as a line (without the newline).
pub open spec fn entry_line(k: Seq<char>, v: FmVal) -> Seq<char> {
    k + ": "@ + value_text(v)
}

/// The frontmatter entries as lines, each ended by a newline.
pub open spec fn fm_lines_text(entries: Seq<(Seq<char>, FmVal)>) -> Seq<char>
    decreases entries.len(),
{
    if entries.len() == 0 {
        Seq::empty()
    } else {
        fm_lines_text(entries.drop_last()) + entry_line(entries.last().0, entries.last().1)
            + seq!['\n']
    }
}

/// A whole document as text: delimiters, the mandatory `uuid` and
/// `type` lines, the remaining entries, then the body.
pub open spec fn render_text(
    id: DocId,
    ty: Seq<char>,
    entries: Seq<(Seq<char>, FmVal)>,
    body: Seq<char>,
) -> Seq<char> {
    "---\nuuid: "@ + crate::ids::id_text_of(id) + "\ntype: "@ + ty + seq!['\n'] + fm_lines_text(
        entries,
    ) + "---\n"@ + body
}

/// Build the text of one value.
fn value_chars(v: &FmValue) -> (r: Vec<char>)
    ensures
        r@ == value_text(v.model()),
{
    let mut payload: Vec<char> = match v {
        FmValue::Null => Vec::new(),
        FmValue::Text(s) => chars_vec(s.as_str()),
        FmValue::Num(n) => u64_dec_vec(*n),
        FmValue::Flag(b) => if *b {
            chars_vec("true")
        } else {
            chars_vec("false")
        },
        FmValue::Items(items) => {
            let mut segs: Vec<Vec<char>> = Vec::new();
            let mut i: usize = 0;
            while i < items.len()
                invariant
                    0 <= i <= items@.len(),
                    segs_model(segs@) == items_texts(items_model(items@).subrange(0, i as int)),
                decreases items@.len() - i,
            {
                let it = &items[i];
                let mut one: Vec<char> = chars_vec(it.id.as_str());
                one.push('|');
                let mut text_part = chars_vec(it.text.as_str());
                one.append(&mut text_part);
                one.push('|');
                one.push(
                    if it.on {
                        '1'
                    } else {
                        '0'
                    },
                );
                proof {
                    assert(one@ =~= item_text(items_model(items@)[i as int]));
                    assert(items_texts(items_model(items@).subrange(0, i as int)).len() == i);
                    assert(segs_model(segs@).len() == i);
                }
                let ghost presegs = segs@;
                segs.push(one);
                proof {
                    assert(segs@ == presegs.push(one));
                    assert(segs_model(segs@).len() == i + 1);
                    assert forall|j: int| 0 <= j < i + 1 implies segs_model(segs@)[j]
                        == items_texts(items_model(items@).subrange(0, i + 1))[j] by {
                        if j < i {
                            assert(segs_model(presegs)[j] == presegs[j]@);
                            assert(items_model(items@).subrange(0, i as int)[j] == items_model(
                                items@,
                            )[j]);
                        }
                        assert(items_model(items@).subrange(0, i + 1)[j] == items_model(
                            items@,
                        )[j]);
                    }
                }
                proof {
                    assert(segs_model(segs@) =~= items_texts(
                        items_model(items@).subrange(0, i + 1),
                    ));
                }
                i = i + 1;
            }
            proof {
                assert(items_model(items@).subrange(0, items@.len() as int) =~= items_model(
                    items@,
                ));
            }
            join_chars(&segs, ';')
        },
        FmValue::Analysis(a) => {
            let mut one: Vec<char> = chars_vec(a.summary.as_str());
            one.push('|');
            let mut sug = chars_vec(a.suggestion.as_str());
            one.append(&mut sug);
            one.push('|');
            let mut rea = chars_vec(a.reasoning.as_str());
            one.append(&mut rea);
            proof {
                assert(one@ =~= payload_of(v.model()));
            }
            one
        },
    };
    proof {
        assert(payload@ =~= payload_of(v.model()));
    }
    let mut out: Vec<char> = match v {
        FmValue::Null => chars_vec("null"),
        FmValue::Text(_) => chars_vec("str"),
        FmValue::Num(_) => chars_vec("num"),
        FmValue::Flag(_) => chars_vec("bool"),
        FmValue::Items(_) => chars_vec("items"),
        FmValue::Analysis(_) => chars_vec("analysis"),
    };
    if payload.len() > 0 {
        out.push(' ');
        out.append(&mut payload);
    }
    proof {
        assert(out@ =~= value_text(v.model()));
    }
    out
}

/// Render a document to its on-disk text.
pub fn render_document(d: &Document) -> (r: String)
    requires
        d.wf(),
    ensures
        r@ == render_text(d.id, d.ty@, d.fm.entry_seq(), d.body@),
{
    let mut out: Vec<char> = chars_vec("---\nuuid: ");
    let idt = id_text(d.id);
    let mut id_chars = chars_vec(idt.as_str());
    out.append(&mut id_chars);
    let mut ty_label = chars_vec("\ntype: ");
    out.append(&mut ty_label);
    let mut ty_chars = chars_vec(d.ty.as_str());
    out.append(&mut ty_chars);
    out.push('\n');
    let ghost head = out@;
    let mut i: usize = 0;
    while i < d.fm.len()
        invariant
            d.wf(),
            0 <= i <= d.fm.entry_seq().len(),
            out@ == head + fm_lines_text(d.fm.entry_seq().subrange(0, i as int)),
        decreases d.fm.entry_seq().len() - i,
    {
        let (k, v) = d.fm.entry_at(i);
        let mut key_chars = chars_vec(k.as_str());
        out.append(&mut key_chars);
        let mut sep = chars_vec(": ");
        out.append(&mut sep);
        let mut val_chars = value_chars(v);
        out.append(&mut val_chars);
        out.push('\n');
        proof {
            let es = d.fm.entry_seq();
            assert(es.subrange(0, i + 1).drop_last() =~= es.subrange(0, i as int));
            assert(es.subrange(0, i + 1).last() == es[i as int]);
            assert(out@ =~= head + fm_lines_text(es.subrange(0, i + 1)));
        }
        i = i + 1;
    }
    let mut close = chars_vec("---\n");
    out.append(&mut close);
    let mut body_chars = chars_vec(d.body.as_str());
    out.append(&mut body_chars);
    proof {
        assert(d.fm.entry_seq().subrange(0, d.fm.entry_seq().len() as int) =~= d.fm.entry_seq());
        assert(out@ =~= render_text(d.id, d.ty@, d.fm.entry_seq(), d.body@));
    }
    string_from_chars(&out)
}


/// What one frontmatter line denotes.
pub enum LineVal {
    IdLine(DocId),
    TyLine(Seq<char>),
    Entry(Seq<char>, FmVal),
}

/// One item parsed back from its text: three pipe-separated fields, the
/// third `0` or `1`.
pub open spec fn parse_item(seg: Seq<char>) -> Option<(Seq<char>, Seq<char>, bool)> {
    let parts = split_on(seg, '|');
    if parts.len() != 3 {
        None
    } else if parts[2] == "0"@ {
        Some((parts[0], parts[1], false))
    } else if parts[2] == "1"@ {
        Some((parts[0], parts[1], true))
    } else {
        None
    }
}

/// The items parsed from a list of segments; `None` if any fails.
pub open spec fn parse_item_list(segs: Seq<Seq<char>>) -> Option<Seq<(Seq<char>, Seq<char>, bool)>>
    decreases segs.len(),
{
    if segs.len() == 0 {
        Some(Seq::empty())
    } else {
        match parse_item_list(segs.drop_last()) {
            None => None,
            Some(items) => match parse_item(segs.last()) {
                None => None,
                Some(it) => Some(items.push(it)),
            },
        }
    }
}

/// The items parsed from a payload; an empty payload is an empty list.
pub open spec fn parse_items(enc: Seq<char>) -> Option<Seq<(Seq<char>, Seq<char>, bool)>> {
    if enc.len() == 0 {
        Some(Seq::empty())
    } else {
        parse_item_list(split_on(enc, ';'))
    }
}

/// A tagged value parsed back from tag and payload.
pub open spec fn parse_value(tag: Seq<char>, enc: Seq<char>) -> Option<FmVal> {
    if tag == "null"@ {
        if enc.len() == 0 {
            Some(FmVal::Null)
        } else {
            None
        }
    } else if tag == "str"@ {
        Some(FmVal::Text(enc))
    } else if tag == "num"@ {
        match dec_val(enc) {
            Some(n) => Some(FmVal::Num(n)),
            None => None,
        }
    } else if tag == "bool"@ {
        if enc == "true"@ {
            Some(FmVal::Flag(true))
        } else if enc == "false"@ {
            Some(FmVal::Flag(false))
        } else {
            None
        }
    } else if tag == "items"@ {
        match parse_items(enc) {
            Some(items) => Some(FmVal::Items(items)),
            None => None,
        }
    } else if tag == "analysis"@ {
        let parts = split_on(enc, '|');
        if parts.len() == 3 {
            Some(FmVal::Analysis(parts[0], parts[1], parts[2]))
        } else {
            None
        }
    } else {
        None
    }
}

/// One frontmatter line parsed: the key before the first `: `, then for
/// the mandatory keys the raw payload, else a tagged value.
pub open spec fn parse_line(line: Seq<char>) -> Option<LineVal> {
    match first_at(line, ':') {
        None => None,
        Some(k) => if !(k + 2 <= line.len() && line[k + 1] == ' ') {
            None
        } else {
            let key = line.subrange(0, k);
            let payload = line.subrange(k + 2, line.len() as int);
            if key == "uuid"@ {
                match parsed_id_of(payload) {
                    Some(id) => Some(LineVal::IdLine(id)),
                    None => None,
                }
            } else if key == "type"@ {
                Some(LineVal::TyLine(payload))
            } else {
                let (tag, enc) = match first_at(payload, ' ') {
                    None => (payload, Seq::<char>::empty()),
                    Some(t) => (payload.subrange(0, t), payload.subrange(
                        t + 1,
                        payload.len() as int,
                    )),
                };
                match parse_value(tag, enc) {
                    Some(v) => Some(LineVal::Entry(key, v)),
                    None => None,
                }
            }
        },
    }
}

/// All frontmatter lines folded up: the last `uuid` and `type` win, and
/// a later entry overwrites an earlier one with the same key.
pub open spec fn parse_fm_lines(lines: Seq<Seq<char>>) -> Option<
    (Option<DocId>, Option<Seq<char>>, Map<Seq<char>, FmVal>),
>
    decreases lines.len(),
{
    if lines.len() == 0 {
        Some((None, None, Map::empty()))
    } else {
        match parse_fm_lines(lines.drop_last()) {
            None => None,
            Some((id0, ty0, m0)) => match parse_line(lines.last()) {
                None => None,
                Some(LineVal::IdLine(id)) => Some((Some(id), ty0, m0)),
                Some(LineVal::TyLine(ty)) => Some((id0, Some(ty), m0)),
                Some(LineVal::Entry(k, v)) => Some((id0, ty0, m0.insert(k, v))),
            },
        }
    }
}

/// The first delimiter line at or after a position.
pub open spec fn first_delim(lines: Seq<Seq<char>>, from: int) -> Option<int>
    decreases lines.len() - from,
{
    if !(0 <= from < lines.len()) {
        None
    } else if lines[from] == "---"@ {
        Some(from)
    } else {
        first_delim(lines, from + 1)
    }
}

/// What a document text denotes: the frontmatter block between the two
/// delimiter lines with mandatory `uuid` and `type`, and the body after
/// the second delimiter. `Err` is every text the shape refuses.
pub open spec fn parse_doc_spec(s: Seq<char>) -> Result<DocModel, ()> {
    let lines = split_on(s, '\n');
    if lines.len() == 0 || lines[0] != "---"@ {
        Err(())
    } else {
        match first_delim(lines, 1) {
            None => Err(()),
            Some(j) => match parse_fm_lines(lines.subrange(1, j)) {
                None => Err(()),
                Some((id0, ty0, m)) => match (id0, ty0) {
                    (Some(id), Some(ty)) => Ok(
                        DocModel {
                            id,
                            ty,
                            fm: m,
                            body: join_with(lines.subrange(j + 1, lines.len() as int), '\n'),
                        },
                    ),
                    _ => Err(()),
                },
            },
        }
    }
}

/// Compare characters to a short literal.
fn chars_eq_str(v: &Vec<char>, lit: &str) -> (r: bool)
    ensures
        r == (v@ == lit@),
{
    let lit_chars = chars_vec(lit);
    if v.len() != lit_chars.len() {
        return false;
    }
    let mut i: usize = 0;
    while i < v.len()
        invariant
            v@.len() == lit_chars@.len(),
            lit_chars@ == lit@,
            0 <= i <= v@.len(),
            forall|j: int| 0 <= j < i ==> v@[j] == lit@[j],
        decreases v@.len() - i,
    {
        if v[i] != lit_chars[i] {
            return false;
        }
        i = i + 1;
    }
    proof {
        assert(v@ =~= lit@);
    }
    true
}

/// Parse one item's text.
fn parse_item_chars(seg: &Vec<char>) -> (r: Option<ChecklistItem>)
    ensures
        match r {
            Some(it) => parse_item(seg@) == Some(it.model()),
            None => parse_item(seg@) is None,
        },
{
    let parts = split_chars(seg, '|');
    if parts.len() != 3 {
        return None;
    }
    proof {
        assert(segs_model(parts@)[0] == parts@[0]@);
        assert(segs_model(parts@)[1] == parts@[1]@);
        assert(segs_model(parts@)[2] == parts@[2]@);
    }
    let on: bool = if chars_eq_str(&parts[2], "0") {
        false
    } else if chars_eq_str(&parts[2], "1") {
        true
    } else {
        return None;
    };
    let id = string_from_chars(&parts[0]);
    let text = string_from_chars(&parts[1]);
    Some(ChecklistItem { id, text, on })
}

/// Parse an items payload.
fn parse_items_chars(enc: &Vec<char>) -> (r: Option<Vec<ChecklistItem>>)
    ensures
        match r {
            Some(items) => parse_items(enc@) == Some(items_model(items@)),
            None => parse_items(enc@) is None,
        },
{
    if enc.len() == 0 {
        let items: Vec<ChecklistItem> = Vec::new();
        proof {
            assert(items_model(items@) =~= Seq::<(Seq<char>, Seq<char>, bool)>::empty());
        }
        return Some(items);
    }
    let segs = split_chars(enc, ';');
    let mut items: Vec<ChecklistItem> = Vec::new();
    let mut i: usize = 0;
    while i < segs.len()
        invariant
            enc@.len() > 0,
            segs_model(segs@) == split_on(enc@, ';'),
            0 <= i <= segs@.len(),
            parse_item_list(segs_model(segs@).subrange(0, i as int)) == Some(
                items_model(items@),
            ),
        decreases segs@.len() - i,
    {
        let it = match parse_item_chars(&segs[i]) {
            Some(it) => it,
            None => {
                proof {
                    assert(segs_model(segs@)[i as int] == segs@[i as int]@);
                    lemma_parse_item_list_fail(segs_model(segs@), i as int);
                }
                return None;
            },
        };
        proof {
            assert(items_model(items@).len() == parse_item_list(
                segs_model(segs@).subrange(0, i as int),
            )->0.len());
        }
        items.push(it);
        proof {
            let m = segs_model(segs@);
            assert(m.subrange(0, i + 1).drop_last() =~= m.subrange(0, i as int));
            assert(m.subrange(0, i + 1).last() == m[i as int]);
            assert(m[i as int] == segs@[i as int]@);
            assert(items_model(items@) =~= parse_item_list(m.subrange(0, i as int))->0.push(
                it.model(),
            ));
        }
        i = i + 1;
    }
    proof {
        assert(segs_model(segs@).subrange(0, segs@.len() as int) =~= segs_model(segs@));
    }
    Some(items)
}

/// Once one segment fails, the whole list fails.
pub proof fn lemma_parse_item_list_fail(segs: Seq<Seq<char>>, i: int)
    requires
        0 <= i < segs.len(),
        parse_item(segs[i]) is None,
    ensures
        parse_item_list(segs) is None,
    decreases segs.len(),
{
    if segs.len() > 0 {
        if i == segs.len() - 1 {
        } else {
            assert(segs.drop_last()[i] == segs[i]);
            lemma_parse_item_list_fail(segs.drop_last(), i);
        }
    }
}


/// One parsed frontmatter line, executably.
enum ParsedLine {
    IdLine(DocId),
    TyLine(String),
    Entry(String, FmValue),
}

impl ParsedLine {
    /// The line as a mathematical value.
    spec fn model(self) -> LineVal {
        match self {
            ParsedLine::IdLine(id) => LineVal::IdLine(id),
            ParsedLine::TyLine(t) => LineVal::TyLine(t@),
            ParsedLine::Entry(k, v) => LineVal::Entry(k@, v.model()),
        }
    }
}

/// Find the first occurrence of a character.
fn find_first(v: &Vec<char>, c: char) -> (r: Option<usize>)
    ensures
        match r {
            Some(k) => first_at(v@, c) == Some(k as int),
            None => first_at(v@, c) is None,
        },
{
    let mut i: usize = 0;
    while i < v.len()
        invariant
            0 <= i <= v@.len(),
            forall|j: int| 0 <= j < i ==> v@[j] != c,
        decreases v@.len() - i,
    {
        if v[i] == c {
            proof {
                lemma_first_at_some(v@, c, i as int);
            }
            return Some(i);
        }
        i = i + 1;
    }
    proof {
        lemma_first_at_none(v@, c);
    }
    None
}

/// Parse one frontmatter line.
fn parse_line_chars(line: &Vec<char>) -> (r: Option<ParsedLine>)
    ensures
        match r {
            Some(pl) => parse_line(line@) == Some(pl.model()),
            None => parse_line(line@) is None,
        },
{
    let k = match find_first(line, ':') {
        Some(k) => k,
        None => {
            return None;
        },
    };
    let n = line.len();
    proof {
        lemma_first_at_bounds(line@, ':');
    }
    if !(k + 1 < n && line[k + 1] == ' ') {
        return None;
    }
    let key = copy_range(line, 0, k);
    let payload = copy_range(line, k + 2, line.len());
    if chars_eq_str(&key, "uuid") {
        let ptext = string_from_chars(&payload);
        match parse_id(ptext.as_str()) {
            Some(id) => Some(ParsedLine::IdLine(id)),
            None => None,
        }
    } else if chars_eq_str(&key, "type") {
        Some(ParsedLine::TyLine(string_from_chars(&payload)))
    } else {
        let (tag, enc): (Vec<char>, Vec<char>) = match find_first(&payload, ' ') {
            None => (payload, Vec::new()),
            Some(t) => {
                proof {
                    lemma_first_at_bounds(payload@, ' ');
                }
                let tag = copy_range(&payload, 0, t);
                let enc = copy_range(&payload, t + 1, payload.len());
                (tag, enc)
            },
        };
        proof {
            assert(enc@.len() == 0 ==> enc@ =~= Seq::<char>::empty());
        }
        let value: FmValue = if chars_eq_str(&tag, "null") {
            if enc.len() > 0 {
                return None;
            }
            proof {
                assert(enc@ =~= Seq::<char>::empty());
            }
            FmValue::Null
        } else if chars_eq_str(&tag, "str") {
            FmValue::Text(string_from_chars(&enc))
        } else if chars_eq_str(&tag, "num") {
            match parse_u64(&enc) {
                Some(n) => FmValue::Num(n),
                None => {
                    return None;
                },
            }
        } else if chars_eq_str(&tag, "bool") {
            if chars_eq_str(&enc, "true") {
                FmValue::Flag(true)
            } else if chars_eq_str(&enc, "false") {
                FmValue::Flag(false)
            } else {
                return None;
            }
        } else if chars_eq_str(&tag, "items") {
            match parse_items_chars(&enc) {
                Some(items) => FmValue::Items(items),
                None => {
                    return None;
                },
            }
        } else if chars_eq_str(&tag, "analysis") {
            let parts = split_chars(&enc, '|');
            if parts.len() != 3 {
                return None;
            }
            proof {
                assert(segs_model(parts@)[0] == parts@[0]@);
                assert(segs_model(parts@)[1] == parts@[1]@);
                assert(segs_model(parts@)[2] == parts@[2]@);
            }
            FmValue::Analysis(
                AnalysisData {
                    summary: string_from_chars(&parts[0]),
                    suggestion: string_from_chars(&parts[1]),
                    reasoning: string_from_chars(&parts[2]),
                },
            )
        } else {
            return None;
        };
        Some(ParsedLine::Entry(string_from_chars(&key), value))
    }
}

/// Once one line fails, the whole block fails.
pub proof fn lemma_parse_fm_lines_fail(ls: Seq<Seq<char>>, i: int)
    requires
        0 <= i < ls.len(),
        parse_line(ls[i]) is None,
    ensures
        parse_fm_lines(ls) is None,
    decreases ls.len(),
{
    if ls.len() > 0 {
        if i == ls.len() - 1 {
        } else {
            assert(ls.drop_last()[i] == ls[i]);
            lemma_parse_fm_lines_fail(ls.drop_last(), i);
        }
    }
}

/// Find the closing delimiter line.
fn find_delim_line(lines: &Vec<Vec<char>>) -> (r: Option<usize>)
    requires
        lines@.len() >= 1,
    ensures
        match r {
            Some(j) => 1 <= j < lines@.len() && first_delim(segs_model(lines@), 1) == Some(
                j as int,
            ),
            None => first_delim(segs_model(lines@), 1) is None,
        },
{
    let ghost lv = segs_model(lines@);
    let mut j: usize = 1;
    while j < lines.len()
        invariant
            lv == segs_model(lines@),
            lv.len() == lines@.len(),
            1 <= j <= lv.len(),
            first_delim(lv, 1) == first_delim(lv, j as int),
        decreases lines@.len() - j,
    {
        proof {
            assert(lv[j as int] == lines@[j as int]@);
        }
        if chars_eq_str(&lines[j], "---") {
            return Some(j);
        }
        j = j + 1;
    }
    None
}

/// Parse a document from its on-disk text: `Corrupt` exactly on the
/// texts the shape refuses.
pub fn parse_document(text: &str) -> (r: Result<Document, StoreError>)
    ensures
        match r {
            Ok(d) => d.wf() && parse_doc_spec(text@) == Ok::<DocModel, ()>(d.model()),
            Err(e) => e is Corrupt && parse_doc_spec(text@) is Err,
        },
{
    let chars = chars_vec(text);
    let lines = split_chars(&chars, '\n');
    let ghost lv = segs_model(lines@);
    proof {
        assert(lv.len() == split_on(text@, '\n').len());
    }
    if lines.len() == 0 {
        return Err(StoreError::Corrupt);
    }
    proof {
        assert(lv[0] == lines@[0]@);
    }
    if !chars_eq_str(&lines[0], "---") {
        return Err(StoreError::Corrupt);
    }
    let j = match find_delim_line(&lines) {
        Some(j) => j,
        None => {
            return Err(StoreError::Corrupt);
        },
    };
    let ghost fm_lines = lv.subrange(1, j as int);
    let mut id_opt: Option<DocId> = None;
    let mut ty_opt: Option<String> = None;
    let mut fm = Fm::new();
    let mut k: usize = 1;
    proof {
        assert(lv.subrange(1, 1) =~= Seq::<Seq<char>>::empty());
    }
    while k < j
        invariant
            lv == segs_model(lines@),
            lv == split_on(text@, '\n'),
            lv.len() == lines@.len(),
            lv[0] == "---"@,
            first_delim(lv, 1) == Some(j as int),
            1 <= k <= j < lv.len(),
            fm.wf(),
            parse_fm_lines(lv.subrange(1, k as int)) == Some(
                (
                    id_opt,
                    match ty_opt {
                        Some(t) => Some(t@),
                        None => None::<Seq<char>>,
                    },
                    fm.model(),
                ),
            ),
        decreases j - k,
    {
        proof {
            assert(lv[k as int] == lines@[k as int]@);
        }
        let pl = match parse_line_chars(&lines[k]) {
            Some(pl) => pl,
            None => {
                proof {
                    assert(lv.subrange(1, j as int)[k - 1] == lv[k as int]);
                    lemma_parse_fm_lines_fail(lv.subrange(1, j as int), k - 1);
                }
                return Err(StoreError::Corrupt);
            },
        };
        proof {
            assert(lv.subrange(1, k + 1).drop_last() =~= lv.subrange(1, k as int));
            assert(lv.subrange(1, k + 1).last() == lv[k as int]);
        }
        match pl {
            ParsedLine::IdLine(id) => {
                id_opt = Some(id);
            },
            ParsedLine::TyLine(t) => {
                ty_opt = Some(t);
            },
            ParsedLine::Entry(key, v) => {
                fm.set(key, v);
            },
        }
        k = k + 1;
    }
    let id = match id_opt {
        Some(id) => id,
        None => {
            return Err(StoreError::Corrupt);
        },
    };
    let ty = match ty_opt {
        Some(t) => t,
        None => {
            return Err(StoreError::Corrupt);
        },
    };
    let mut body_segs: Vec<Vec<char>> = Vec::new();
    let mut b: usize = j + 1;
    proof {
        assert(segs_model(body_segs@) =~= lv.subrange(j + 1, (j + 1) as int));
    }
    while b < lines.len()
        invariant
            lv == segs_model(lines@),
            lv.len() == lines@.len(),
            j + 1 <= b <= lv.len(),
            segs_model(body_segs@) == lv.subrange(j + 1, b as int),
        decreases lines@.len() - b,
    {
        let seg = copy_range(&lines[b], 0, lines[b].len());
        proof {
            assert(seg@ =~= lv[b as int]);
            assert(segs_model(body_segs@).len() == b - j - 1);
        }
        body_segs.push(seg);
        proof {
            assert(segs_model(body_segs@) =~= lv.subrange(j + 1, b + 1));
        }
        b = b + 1;
    }
    let body_chars = join_chars(&body_segs, '\n');
    let body = string_from_chars(&body_chars);
    let d = Document { id, ty, fm, body };
    proof {
        assert(lv.subrange(j + 1, lv.len() as int) == segs_model(body_segs@));
        assert(parse_doc_spec(text@) == Ok::<DocModel, ()>(d.model()));
    }
    Ok(d)
}


/// The text an index entry is written as: the id, or `-` for none.
pub open spec fn entry_text(e: Option<DocId>) -> Seq<char> {
    match e {
        None => "-"@,
        Some(id) => id_text_of(id),
    }
}

/// The persisted shape of the index: one line per logical key, then the
/// two fingerprint fields.
pub open spec fn index_text(idx: Index) -> Seq<char> {
    "active_session: "@ + entry_text(idx.active_session) + "\nchecklist: "@ + entry_text(
        idx.checklist,
    ) + "\ncount: "@ + u64_dec(idx.fp.count as u64) + "\nstamp: "@ + u64_dec(idx.fp.stamp)
}

/// The payload of a `key: value` line, when the key matches.
pub open spec fn keyed_payload(line: Seq<char>, key: Seq<char>) -> Option<Seq<char>> {
    match first_at(line, ':') {
        None => None,
        Some(k) => if !(k + 2 <= line.len() && line[k + 1] == ' ') {
            None
        } else if line.subrange(0, k) == key {
            Some(line.subrange(k + 2, line.len() as int))
        } else {
            None
        },
    }
}

/// An index entry parsed back.
pub open spec fn entry_of_text(p: Seq<char>) -> Option<Option<DocId>> {
    if p == "-"@ {
        Some(None)
    } else {
        match parsed_id_of(p) {
            Some(id) => Some(Some(id)),
            None => None,
        }
    }
}

/// What an index file denotes: four keyed lines, in order.
pub open spec fn parse_index_spec(s: Seq<char>) -> Option<Index> {
    let lines = split_on(s, '\n');
    if lines.len() != 4 {
        None
    } else {
        match (
            keyed_payload(lines[0], "active_session"@),
            keyed_payload(lines[1], "checklist"@),
            keyed_payload(lines[2], "count"@),
            keyed_payload(lines[3], "stamp"@),
        ) {
            (Some(p0), Some(p1), Some(p2), Some(p3)) => match (
                entry_of_text(p0),
                entry_of_text(p1),
                dec_val(p2),
                dec_val(p3),
            ) {
                (Some(a), Some(cl), Some(count), Some(stamp)) => if count <= usize::MAX as u64 {
                    Some(
                        Index {
                            active_session: a,
                            checklist: cl,
                            fp: Fingerprint { count: count as usize, stamp },
                        },
                    )
                } else {
                    None
                },
                _ => None,
            },
            _ => None,
        }
    }
}

/// Render the index to its persisted text.
pub fn render_index(idx: &Index) -> (r: String)
    ensures
        r@ == index_text(*idx),
{
    let mut out: Vec<char> = chars_vec("active_session: ");
    let mut a = entry_chars(idx.active_session);
    out.append(&mut a);
    let mut l1 = chars_vec("\nchecklist: ");
    out.append(&mut l1);
    let mut c = entry_chars(idx.checklist);
    out.append(&mut c);
    let mut l2 = chars_vec("\ncount: ");
    out.append(&mut l2);
    let mut n = u64_dec_vec(idx.fp.count as u64);
    out.append(&mut n);
    let mut l3 = chars_vec("\nstamp: ");
    out.append(&mut l3);
    let mut st = u64_dec_vec(idx.fp.stamp);
    out.append(&mut st);
    proof {
        assert(out@ =~= index_text(*idx));
    }
    string_from_chars(&out)
}

/// Build the text of one index entry.
fn entry_chars(e: Option<DocId>) -> (r: Vec<char>)
    ensures
        r@ == entry_text(e),
{
    match e {
        None => chars_vec("-"),
        Some(id) => {
            let t = id_text(id);
            chars_vec(t.as_str())
        },
    }
}

/// Take the payload of a keyed line.
fn keyed_payload_chars(line: &Vec<char>, key: &str) -> (r: Option<Vec<char>>)
    ensures
        match r {
            Some(p) => keyed_payload(line@, key@) == Some(p@),
            None => keyed_payload(line@, key@) is None,
        },
{
    let k = match find_first(line, ':') {
        Some(k) => k,
        None => {
            return None;
        },
    };
    let n = line.len();
    proof {
        lemma_first_at_bounds(line@, ':');
    }
    if !(k + 1 < n && line[k + 1] == ' ') {
        return None;
    }
    let head = copy_range(line, 0, k);
    if !chars_eq_str(&head, key) {
        return None;
    }
    Some(copy_range(line, k + 2, n))
}

/// Parse one index entry payload.
fn entry_from_chars(p: &Vec<char>) -> (r: Option<Option<DocId>>)
    ensures
        r == entry_of_text(p@),
{
    if chars_eq_str(p, "-") {
        return Some(None);
    }
    let t = string_from_chars(p);
    match parse_id(t.as_str()) {
        Some(id) => Some(Some(id)),
        None => None,
    }
}

/// Parse a persisted index; `None` on any text the shape refuses.
pub fn parse_index(text: &str) -> (r: Option<Index>)
    ensures
        r == parse_index_spec(text@),
{
    let chars = chars_vec(text);
    let lines = split_chars(&chars, '\n');
    proof {
        assert(segs_model(lines@).len() == split_on(text@, '\n').len());
    }
    if lines.len() != 4 {
        return None;
    }
    proof {
        assert(segs_model(lines@)[0] == lines@[0]@);
        assert(segs_model(lines@)[1] == lines@[1]@);
        assert(segs_model(lines@)[2] == lines@[2]@);
        assert(segs_model(lines@)[3] == lines@[3]@);
    }
    let p0 = match keyed_payload_chars(&lines[0], "active_session") {
        Some(p) => p,
        None => {
            return None;
        },
    };
    let p1 = match keyed_payload_chars(&lines[1], "checklist") {
        Some(p) => p,
        None => {
            return None;
        },
    };
    let p2 = match keyed_payload_chars(&lines[2], "count") {
        Some(p) => p,
        None => {
            return None;
        },
    };
    let p3 = match keyed_payload_chars(&lines[3], "stamp") {
        Some(p) => p,
        None => {
            return None;
        },
    };
    let active_session = match entry_from_chars(&p0) {
        Some(e) => e,
        None => {
            return None;
        },
    };
    let checklist = match entry_from_chars(&p1) {
        Some(e) => e,
        None => {
            return None;
        },
    };
    let count = match parse_u64(&p2) {
        Some(n) => n,
        None => {
            return None;
        },
    };
    let stamp = match parse_u64(&p3) {
        Some(n) => n,
        None => {
            return None;
        },
    };
    if count > usize::MAX as u64 {
        return None;
    }
    Some(Index { active_session, checklist, fp: Fingerprint { count: count as usize, stamp } })
}

} // verus!
