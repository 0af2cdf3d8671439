//! The small YAML subset that the server's `stats`, `stats-tube` and
//! `list-tubes` replies use: a `---` line, then either `key: value` lines
//! (a map) or `- item` lines (a list).
use vstd::prelude::*;
use crate::text::{
    trim, is_space, parse_unsigned, chars_of, trim_chars, copy_range, string_from_chars,
    parse_u64, is_space_char,
};

verus! {

/// The lines of `s`, split at each `'\n'` (as `str::split('\n')` does: a
/// string without a newline is one line, and a trailing newline ends with
/// an empty line).
pub open spec fn lines_of(s: Seq<char>) -> Seq<Seq<char>>
    decreases s.len(),
{
    if s.len() == 0 {
        seq![Seq::<char>::empty()]
    } else {
        let ls = lines_of(s.drop_last());
        if s.last() == '\n' {
            ls.push(Seq::<char>::empty())
        } else {
            ls.update(ls.len() - 1, ls.last().push(s.last()))
        }
    }
}

/// The index of the first `c` in `s`, or `s.len()` when there is none.
pub open spec fn index_of(s: Seq<char>, c: char) -> nat
    decreases s.len(),
{
    if s.len() == 0 {
        0
    } else if s[0] == c {
        0
    } else {
        1 + index_of(s.drop_first(), c)
    }
}

/// `s` without one pair of surrounding double quotes, if it has them.
pub open spec fn unquote(s: Seq<char>) -> Seq<char> {
    if s.len() >= 2 && s[0] == '"' && s.last() == '"' {
        s.subrange(1, s.len() - 1)
    } else {
        s
    }
}

/// The `key: value` pair that a line holds: the line is trimmed, split at
/// its first `:`, both sides trimmed and the value unquoted. A line without
/// a `:` (such as `---` or an empty line) holds none.
pub open spec fn map_entry(line: Seq<char>) -> Option<(Seq<char>, Seq<char>)> {
    let l = trim(line);
    let p = index_of(l, ':') as int;
    if p < l.len() {
        Some((trim(l.take(p)), unquote(trim(l.skip(p + 1)))))
    } else {
        None
    }
}

/// The item that a `- item` line holds: the trimmed line starts with `-`
/// followed by whitespace, and the rest, trimmed and unquoted, is the item.
pub open spec fn list_item(line: Seq<char>) -> Option<Seq<char>> {
    let l = trim(line);
    if l.len() >= 2 && l[0] == '-' && is_space(l[1]) {
        Some(unquote(trim(l.skip(1))))
    } else {
        None
    }
}

/// The entries of the map held by `lines`, in order.
pub open spec fn entries_of(lines: Seq<Seq<char>>) -> Seq<(Seq<char>, Seq<char>)>
    decreases lines.len(),
{
    if lines.len() == 0 {
        Seq::empty()
    } else {
        let rest = entries_of(lines.drop_last());
        match map_entry(lines.last()) {
            Some(e) => rest.push(e),
            None => rest,
        }
    }
}

/// The items of the list held by `lines`, in order.
pub open spec fn items_of(lines: Seq<Seq<char>>) -> Seq<Seq<char>>
    decreases lines.len(),
{
    if lines.len() == 0 {
        Seq::empty()
    } else {
        let rest = items_of(lines.drop_last());
        match list_item(lines.last()) {
            Some(it) => rest.push(it),
            None => rest,
        }
    }
}

/// The value of `key` in `entries`: a later entry overrides an earlier one,
/// as repeated inserts into a map do.
pub open spec fn lookup(entries: Seq<(Seq<char>, Seq<char>)>, key: Seq<char>) -> Option<Seq<char>>
    decreases entries.len(),
{
    if entries.len() == 0 {
        None
    } else if entries.last().0 == key {
        Some(entries.last().1)
    } else {
        lookup(entries.drop_last(), key)
    }
}

/// The text value of `key`, empty when absent.
pub open spec fn spec_get_str(entries: Seq<(Seq<char>, Seq<char>)>, key: Seq<char>) -> Seq<char> {
    match lookup(entries, key) {
        Some(v) => v,
        None => Seq::empty(),
    }
}

/// The unsigned value of `key`, 0 when absent or not a `u64`.
pub open spec fn spec_get_u64(entries: Seq<(Seq<char>, Seq<char>)>, key: Seq<char>) -> u64 {
    match lookup(entries, key) {
        Some(v) => match parse_unsigned(v, u64::MAX as nat) {
            Some(n) => n as u64,
            None => 0,
        },
        None => 0,
    }
}

/// The boolean value of `key`: true exactly when the value is `true`.
pub open spec fn spec_get_bool(entries: Seq<(Seq<char>, Seq<char>)>, key: Seq<char>) -> bool {
    lookup(entries, key) == Some(seq!['t', 'r', 'u', 'e'])
}

pub open spec fn char_lines(v: Seq<Vec<char>>) -> Seq<Seq<char>> {
    v.map_values(|l: Vec<char>| l@)
}

/// A parsed YAML map: its `key: value` entries in the order of the text.
pub struct YamlMap {
    entries: Vec<(Vec<char>, Vec<char>)>,
}

impl View for YamlMap {
    type V = Seq<(Seq<char>, Seq<char>)>;

    closed spec fn view(&self) -> Seq<(Seq<char>, Seq<char>)> {
        self.entries@.map_values(|e: (Vec<char>, Vec<char>)| (e.0@, e.1@))
    }
}

/// The lines of `s`, as `lines_of` describes.
pub fn split_lines(s: &[char]) -> (r: Vec<Vec<char>>)
    ensures
        char_lines(r@) == lines_of(s@),
{
    let mut r: Vec<Vec<char>> = Vec::new();
    let mut cur: Vec<char> = Vec::new();
    let mut i: usize = 0;
    assert(s@.take(0) =~= Seq::<char>::empty());
    assert(char_lines(r@).push(cur@) =~= lines_of(s@.take(0)));
    while i < s.len()
        invariant
            i <= s@.len(),
            char_lines(r@).push(cur@) == lines_of(s@.take(i as int)),
        decreases s@.len() - i,
    {
        let c = s[i];
        let ghost before = lines_of(s@.take(i as int));
        assert(s@.take(i + 1).drop_last() =~= s@.take(i as int));
        assert(s@.take(i + 1).last() == c);
        if c == '\n' {
            let line = cur;
            r.push(line);
            cur = Vec::new();
            assert(char_lines(r@).push(cur@) =~= before.push(Seq::<char>::empty()));
        } else {
            cur.push(c);
            assert(char_lines(r@).push(cur@) =~= before.update(
                before.len() - 1,
                before.last().push(c),
            ));
        }
        i = i + 1;
    }
    assert(s@.take(s@.len() as int) =~= s@);
    r.push(cur);
    assert(char_lines(r@) =~= lines_of(s@));
    r
}

/// The index of the first `c` in `s`, or `s.len()`.
pub fn find_char(s: &[char], c: char) -> (p: usize)
    ensures
        p as nat == index_of(s@, c),
        p <= s@.len(),
        p < s@.len() ==> s@[p as int] == c,
{
    let mut i: usize = 0;
    assert(s@.skip(0) =~= s@);
    while i < s.len() && s[i] != c
        invariant
            i <= s@.len(),
            index_of(s@, c) == i + index_of(s@.skip(i as int), c),
        decreases s@.len() - i,
    {
        assert(s@.skip(i as int).drop_first() =~= s@.skip(i + 1));
        i = i + 1;
    }
    proof {
        if i < s@.len() {
            assert(s@.skip(i as int)[0] == c);
        } else {
            assert(s@.skip(i as int).len() == 0);
        }
    }
    i
}

/// `s` without a pair of surrounding double quotes.
pub fn unquote_chars(s: &[char]) -> (r: Vec<char>)
    ensures
        r@ == unquote(s@),
{
    let n = s.len();
    if n >= 2 && s[0] == '"' && s[n - 1] == '"' {
        copy_range(s, 1, n - 1)
    } else {
        let r = copy_range(s, 0, n);
        assert(s@.subrange(0, n as int) =~= s@);
        r
    }
}

/// The entry that `line` holds, as `map_entry` describes.
pub fn parse_entry(line: &[char]) -> (r: Option<(Vec<char>, Vec<char>)>)
    ensures
        match r {
            Some(e) => map_entry(line@) == Some((e.0@, e.1@)),
            None => map_entry(line@) is None,
        },
{
    let l = trim_chars(line);
    let p = find_char(l.as_slice(), ':');
    if p < l.len() {
        let k = copy_range(l.as_slice(), 0, p);
        let v = copy_range(l.as_slice(), p + 1, l.len());
        assert(k@ =~= l@.take(p as int));
        assert(v@ =~= l@.skip(p + 1));
        let key = trim_chars(k.as_slice());
        let tv = trim_chars(v.as_slice());
        let value = unquote_chars(tv.as_slice());
        Some((key, value))
    } else {
        None
    }
}

/// The item that `line` holds, as `list_item` describes.
pub fn parse_item(line: &[char]) -> (r: Option<Vec<char>>)
    ensures
        match r {
            Some(it) => list_item(line@) == Some(it@),
            None => list_item(line@) is None,
        },
{
    let l = trim_chars(line);
    if l.len() >= 2 && l[0] == '-' && is_space_char(l[1]) {
        let rest = copy_range(l.as_slice(), 1, l.len());
        assert(rest@ =~= l@.skip(1));
        let t = trim_chars(rest.as_slice());
        Some(unquote_chars(t.as_slice()))
    } else {
        None
    }
}

/// Parses the `key: value` lines of a reply body.
pub fn parse_yaml_map(yaml: &str) -> (m: YamlMap)
    ensures
        m@ == entries_of(lines_of(yaml@)),
{
    let chars = chars_of(yaml);
    let lines = split_lines(chars.as_slice());
    let ghost ls = char_lines(lines@);
    let mut entries: Vec<(Vec<char>, Vec<char>)> = Vec::new();
    let mut i: usize = 0;
    while i < lines.len()
        invariant
            i <= lines@.len(),
            ls == char_lines(lines@),
            entries@.map_values(|e: (Vec<char>, Vec<char>)| (e.0@, e.1@)) == entries_of(
                ls.take(i as int),
            ),
        decreases lines@.len() - i,
    {
        assert(ls.take(i + 1).drop_last() =~= ls.take(i as int));
        assert(ls.take(i + 1).last() == lines@[i as int]@);
        match parse_entry(lines[i].as_slice()) {
            Some(e) => {
                entries.push(e);
            },
            None => {},
        }
        assert(entries@.map_values(|e: (Vec<char>, Vec<char>)| (e.0@, e.1@)) =~= entries_of(
            ls.take(i + 1),
        ));
        i = i + 1;
    }
    assert(ls.take(lines@.len() as int) =~= ls);
    YamlMap { entries }
}

/// Parses the `- item` lines of a reply body.
pub fn parse_yaml_list(yaml: &str) -> (items: Vec<String>)
    ensures
        items@.map_values(|s: String| s@) == items_of(lines_of(yaml@)),
{
    let chars = chars_of(yaml);
    let lines = split_lines(chars.as_slice());
    let ghost ls = char_lines(lines@);
    let mut items: Vec<String> = Vec::new();
    let mut i: usize = 0;
    while i < lines.len()
        invariant
            i <= lines@.len(),
            ls == char_lines(lines@),
            items@.map_values(|s: String| s@) == items_of(ls.take(i as int)),
        decreases lines@.len() - i,
    {
        assert(ls.take(i + 1).drop_last() =~= ls.take(i as int));
        assert(ls.take(i + 1).last() == lines@[i as int]@);
        match parse_item(lines[i].as_slice()) {
            Some(it) => {
                items.push(string_from_chars(it.as_slice()));
            },
            None => {},
        }
        assert(items@.map_values(|s: String| s@) =~= items_of(ls.take(i + 1)));
        i = i + 1;
    }
    assert(ls.take(lines@.len() as int) =~= ls);
    items
}

/// Whether two character sequences are equal.
pub fn chars_eq(a: &[char], b: &[char]) -> (r: bool)
    ensures
        r == (a@ == b@),
{
    if a.len() != b.len() {
        return false;
    }
    let mut i: usize = 0;
    while i < a.len()
        invariant
            i <= a@.len() == b@.len(),
            forall|j: int| 0 <= j < i ==> a@[j] == b@[j],
        decreases a@.len() - i,
    {
        if a[i] != b[i] {
            return false;
        }
        i = i + 1;
    }
    assert(a@ =~= b@);
    true
}

impl YamlMap {
    /// The value of `key`, as `lookup` describes.
    pub fn get(&self, key: &str) -> (r: Option<&Vec<char>>)
        ensures
            match r {
                Some(v) => lookup(self@, key@) == Some(v@),
                None => lookup(self@, key@) is None,
            },
    {
        let k = chars_of(key);
        let ghost es = self@;
        let mut i: usize = self.entries.len();
        assert(es.take(i as int) =~= es);
        while i > 0
            invariant
                i <= self.entries@.len(),
                es == self@,
                k@ == key@,
                lookup(es, k@) == lookup(es.take(i as int), k@),
            decreases i,
        {
            let e = &self.entries[i - 1];
            assert(es[i - 1] == (e.0@, e.1@));
            assert(es.take(i as int).drop_last() =~= es.take(i - 1));
            assert(es.take(i as int).last() == (e.0@, e.1@));
            if chars_eq(e.0.as_slice(), k.as_slice()) {
                assert(es.take(i as int).last().0 == k@);
                assert(lookup(es.take(i as int), k@) == Some(e.1@));
                return Some(&e.1);
            }
            i = i - 1;
        }
        assert(es.take(0) =~= Seq::<(Seq<char>, Seq<char>)>::empty());
        None
    }
}

/// The text value of `key`, empty when absent.
pub fn get_str(m: &YamlMap, key: &str) -> (r: String)
    ensures
        r@ == spec_get_str(m@, key@),
{
    match m.get(key) {
        Some(v) => string_from_chars(v.as_slice()),
        None => string_from_chars(&[]),
    }
}

/// The unsigned value of `key`, 0 when absent or not a `u64`.
pub fn get_u64(m: &YamlMap, key: &str) -> (r: u64)
    ensures
        r == spec_get_u64(m@, key@),
{
    match m.get(key) {
        Some(v) => match parse_u64(v.as_slice()) {
            Some(n) => n,
            None => 0,
        },
        None => 0,
    }
}

/// The boolean value of `key`: true exactly when the value is `true`.
pub fn get_bool(m: &YamlMap, key: &str) -> (r: bool)
    ensures
        r == spec_get_bool(m@, key@),
{
    match m.get(key) {
        Some(v) => {
            let t: [char; 4] = ['t', 'r', 'u', 'e'];
            let r = chars_eq(v.as_slice(), &t);
            assert(t@ =~= seq!['t', 'r', 'u', 'e']);
            r
        },
        None => false,
    }
}

proof fn lemma_trim_start_non_space(s: Seq<char>)
    requires
        s.len() > 0,
        !is_space(s[0]),
    ensures
        crate::text::trim_start(s) == s,
{
}

proof fn lemma_trim_end_non_space(s: Seq<char>)
    requires
        s.len() > 0,
        !is_space(s.last()),
    ensures
        crate::text::trim_end(s) == s,
{
}

proof fn lemma_trim_leading_space(v: Seq<char>)
    ensures
        trim(seq![' '] + v) == trim(v),
{
    assert((seq![' '] + v).drop_first() =~= v);
    assert(is_space(' '));
}

proof fn lemma_index_of_after(k: Seq<char>, rest: Seq<char>, c: char)
    requires
        forall|i: int| 0 <= i < k.len() ==> k[i] != c,
    ensures
        index_of(k + rest, c) == k.len() + index_of(rest, c),
    decreases k.len(),
{
    if k.len() > 0 {
        assert((k + rest)[0] == k[0]);
        assert((k + rest).drop_first() =~= k.drop_first() + rest);
        lemma_index_of_after(k.drop_first(), rest, c);
    } else {
        assert(k + rest =~= rest);
    }
}

/// Law: a line `key: value` reads back as that key and value, for every
/// key without a `:` and every value, each already trimmed, the value not
/// wrapped in double quotes.
pub proof fn entry_line_roundtrip(key: Seq<char>, value: Seq<char>)
    requires
        forall|i: int| 0 <= i < key.len() ==> key[i] != ':',
        trim(key) == key,
        trim(value) == value,
        unquote(value) == value,
    ensures
        map_entry(key + seq![':', ' '] + value) == Some((key, value)),
{
    let line = key + seq![':', ' '] + value;
    let colon = key + seq![':'];
    // What trimming the whole line leaves.
    let l = if value.len() == 0 { colon } else { line };
    assert(is_space(' '));
    assert(!is_space(':'));
    if key.len() > 0 {
        lemma_trimmed_first(key);
        assert(line[0] == key[0]);
        lemma_trim_start_non_space(line);
    } else {
        assert(line[0] == ':');
        lemma_trim_start_non_space(line);
    }
    if value.len() == 0 {
        assert(line =~= colon + seq![' ']);
        assert(line.drop_last() =~= colon);
        assert(colon.last() == ':');
        lemma_trim_end_non_space(colon);
        assert(crate::text::trim_end(line) == colon);
    } else {
        lemma_trimmed_last(value);
        assert(line.last() == value.last());
        lemma_trim_end_non_space(line);
    }
    assert(trim(line) == l);
    lemma_index_of_after(key, l.skip(key.len() as int), ':');
    assert(key + l.skip(key.len() as int) =~= l);
    assert(l.skip(key.len() as int)[0] == ':');
    assert(index_of(l, ':') == key.len());
    assert(l.take(key.len() as int) =~= key);
    if value.len() == 0 {
        assert(l.skip(key.len() as int + 1) =~= Seq::<char>::empty());
        assert(trim(Seq::<char>::empty()) =~= Seq::<char>::empty());
    } else {
        assert(l.skip(key.len() as int + 1) =~= seq![' '] + value);
        lemma_trim_leading_space(value);
    }
}

proof fn lemma_trim_start_len(s: Seq<char>)
    ensures
        crate::text::trim_start(s).len() <= s.len(),
    decreases s.len(),
{
    if s.len() > 0 && is_space(s[0]) {
        lemma_trim_start_len(s.drop_first());
    }
}

proof fn lemma_trim_end_len(s: Seq<char>)
    ensures
        crate::text::trim_end(s).len() <= s.len(),
    decreases s.len(),
{
    if s.len() > 0 && is_space(s.last()) {
        lemma_trim_end_len(s.drop_last());
    }
}

/// A string that ends in whitespace is changed by trimming its end.
proof fn lemma_trim_end_drops_space(s: Seq<char>)
    requires
        s.len() > 0,
        is_space(s.last()),
    ensures
        crate::text::trim_end(s).len() < s.len(),
{
    lemma_trim_end_len(s.drop_last());
}

/// Law: a line `- item` reads back as that item, for every non-empty item
/// that is already trimmed and not wrapped in double quotes.
pub proof fn item_line_roundtrip(item: Seq<char>)
    requires
        item.len() > 0,
        trim(item) == item,
        unquote(item) == item,
    ensures
        list_item(seq!['-', ' '] + item) == Some(item),
{
    let line = seq!['-', ' '] + item;
    assert(is_space(' '));
    assert(!is_space('-'));
    assert(line[0] == '-');
    lemma_trim_start_non_space(line);
    lemma_trimmed_last(item);
    assert(line.last() == item.last());
    lemma_trim_end_non_space(line);
    assert(trim(line) == line);
    assert(line.skip(1) =~= seq![' '] + item);
    lemma_trim_leading_space(item);
}

/// A trimmed non-empty string does not start with whitespace.
proof fn lemma_trimmed_first(s: Seq<char>)
    requires
        s.len() > 0,
        trim(s) == s,
    ensures
        !is_space(s[0]),
{
    if is_space(s[0]) {
        lemma_trim_start_len(s.drop_first());
        lemma_trim_end_len(crate::text::trim_start(s));
    }
}

/// A trimmed non-empty string does not end with whitespace.
proof fn lemma_trimmed_last(s: Seq<char>)
    requires
        s.len() > 0,
        trim(s) == s,
    ensures
        !is_space(s.last()),
{
    if is_space(s.last()) {
        let t = crate::text::trim_start(s);
        lemma_trim_start_suffix(s);
        if t.len() > 0 {
            assert(t.last() == s.last());
            lemma_trim_end_drops_space(t);
        } else {
            lemma_trim_end_len(t);
        }
    }
}

/// Trimming the start of `s` leaves a suffix of `s`.
proof fn lemma_trim_start_suffix(s: Seq<char>)
    ensures
        crate::text::trim_start(s) == s.skip(s.len() - crate::text::trim_start(s).len()),
        crate::text::trim_start(s).len() <= s.len(),
    decreases s.len(),
{
    if s.len() > 0 && is_space(s[0]) {
        lemma_trim_start_suffix(s.drop_first());
        let t = crate::text::trim_start(s.drop_first());
        assert(s.drop_first().skip(s.len() - 1 - t.len()) =~= s.skip(s.len() - t.len()));
    } else {
        assert(s.skip(0) =~= s);
    }
}

/// The line that writes the entry `key: value`.
pub open spec fn entry_line(key: Seq<char>, value: Seq<char>) -> Seq<char> {
    key + seq![':', ' '] + value
}

/// An entry that a line can carry and give back: the key has no `:`, neither
/// side has a newline, both are already trimmed, and the value is not
/// wrapped in double quotes.
pub open spec fn writable_entry(key: Seq<char>, value: Seq<char>) -> bool {
    &&& forall|i: int| 0 <= i < key.len() ==> key[i] != ':' && key[i] != '\n'
    &&& forall|i: int| 0 <= i < value.len() ==> value[i] != '\n'
    &&& trim(key) == key
    &&& trim(value) == value
    &&& unquote(value) == value
}

/// Text that is empty or ends with a newline: another line can follow it.
pub open spec fn ends_line(s: Seq<char>) -> bool {
    s.len() == 0 || s.last() == '\n'
}

/// A body that writes the entries `es`, one line each, in order.
pub open spec fn body_of(es: Seq<(Seq<char>, Seq<char>)>) -> Seq<char>
    decreases es.len(),
{
    if es.len() == 0 {
        Seq::empty()
    } else {
        body_of(es.drop_last()) + entry_line(es.last().0, es.last().1) + seq!['\n']
    }
}

proof fn lemma_lines_of_nonempty(s: Seq<char>)
    ensures
        lines_of(s).len() >= 1,
    decreases s.len(),
{
    if s.len() > 0 {
        lemma_lines_of_nonempty(s.drop_last());
    }
}

/// Appending text without a newline extends the last line.
proof fn lemma_lines_of_append(s: Seq<char>, t: Seq<char>)
    requires
        forall|i: int| 0 <= i < t.len() ==> t[i] != '\n',
    ensures
        lines_of(s + t) == lines_of(s).update(lines_of(s).len() - 1, lines_of(s).last() + t),
    decreases t.len(),
{
    lemma_lines_of_nonempty(s);
    let ls = lines_of(s);
    if t.len() == 0 {
        assert(s + t =~= s);
        assert(ls.last() + t =~= ls.last());
        assert(ls.update(ls.len() - 1, ls.last()) =~= ls);
    } else {
        let u = t.drop_last();
        lemma_lines_of_append(s, u);
        assert((s + t).drop_last() =~= s + u);
        assert((s + t).last() == t.last());
        let lu = lines_of(s + u);
        assert(lu.len() == ls.len());
        assert(lu.last() == ls.last() + u);
        assert(lines_of(s + t) == lu.update(lu.len() - 1, lu.last().push(t.last())));
        assert(ls.last() + u.push(t.last()) =~= ls.last() + t);
        assert(u.push(t.last()) =~= t);
        assert(lines_of(s + t) =~= ls.update(ls.len() - 1, ls.last() + t));
    }
}

proof fn lemma_entries_of_empty_line(ls: Seq<Seq<char>>)
    ensures
        entries_of(ls.push(Seq::<char>::empty())) == entries_of(ls),
{
    let e = Seq::<char>::empty();
    assert(ls.push(e).drop_last() =~= ls);
    assert(trim(e) =~= e) by {
        assert(crate::text::trim_start(e) == e);
        assert(crate::text::trim_end(e) == e);
    }
    assert(index_of(e, ':') == 0);
}

/// Law: appending the line `key: value` to a body whose lines are complete
/// adds exactly that entry after the body's own entries; so `key` reads
/// `value`, and every other key reads what it read before.
pub proof fn appended_entry_reads_back(yaml: Seq<char>, key: Seq<char>, value: Seq<char>)
    requires
        ends_line(yaml),
        writable_entry(key, value),
    ensures
        entries_of(lines_of(yaml + entry_line(key, value) + seq!['\n'])) == entries_of(
            lines_of(yaml),
        ).push((key, value)),
        lookup(entries_of(lines_of(yaml + entry_line(key, value) + seq!['\n'])), key) == Some(value),
        forall|other: Seq<char>|
            other != key ==> #[trigger] lookup(
                entries_of(lines_of(yaml + entry_line(key, value) + seq!['\n'])),
                other,
            ) == lookup(entries_of(lines_of(yaml)), other),
{
    let line = entry_line(key, value);
    let ls = lines_of(yaml);
    lemma_lines_of_nonempty(yaml);
    assert(ls.last() == Seq::<char>::empty()) by {
        if yaml.len() > 0 {
            assert(yaml.last() == '\n');
        } else {
            assert(ls =~= seq![Seq::<char>::empty()]);
        }
    }
    assert forall|i: int| 0 <= i < line.len() implies line[i] != '\n' by {
        if i < key.len() {
            assert(line[i] == key[i]);
        } else if i < key.len() + 2 {
        } else {
            assert(line[i] == value[i - key.len() - 2]);
        }
    }
    lemma_lines_of_append(yaml, line);
    assert(Seq::<char>::empty() + line =~= line);
    let full = yaml + line + seq!['\n'];
    assert(full.drop_last() =~= yaml + line);
    assert(full.last() == '\n');
    let mid = ls.update(ls.len() - 1, line);
    assert(lines_of(full) == mid.push(Seq::<char>::empty()));
    lemma_entries_of_empty_line(mid);
    assert(mid.drop_last() =~= ls.drop_last());
    assert(mid.last() == line);
    entry_line_roundtrip(key, value);
    assert(entries_of(mid) == entries_of(ls.drop_last()).push((key, value)));
    assert(ls.drop_last().push(Seq::<char>::empty()) =~= ls);
    lemma_entries_of_empty_line(ls.drop_last());
    let es = entries_of(lines_of(full));
    assert(es.drop_last() =~= entries_of(ls));
}

/// Law: a body that writes entries, one line each, reads back exactly
/// those entries, in order.
pub proof fn body_reads_back(es: Seq<(Seq<char>, Seq<char>)>)
    requires
        forall|i: int| 0 <= i < es.len() ==> #[trigger] writable_entry(es[i].0, es[i].1),
    ensures
        ends_line(body_of(es)),
        entries_of(lines_of(body_of(es))) == es,
    decreases es.len(),
{
    if es.len() == 0 {
        assert(lines_of(Seq::<char>::empty()) =~= seq![Seq::<char>::empty()]);
        lemma_entries_of_empty_line(Seq::<Seq<char>>::empty());
        assert(seq![Seq::<char>::empty()] =~= Seq::<Seq<char>>::empty().push(Seq::<char>::empty()));
    } else {
        let rest = es.drop_last();
        assert forall|i: int| 0 <= i < rest.len() implies #[trigger] writable_entry(
            rest[i].0,
            rest[i].1,
        ) by {
            assert(rest[i] == es[i]);
        }
        body_reads_back(rest);
        assert(writable_entry(es[es.len() - 1].0, es[es.len() - 1].1));
        appended_entry_reads_back(body_of(rest), es.last().0, es.last().1);
        assert(rest.push(es.last()) =~= es);
        let b = body_of(es);
        assert(b.last() == '\n');
    }
}

/// Keys that occur once each.
pub open spec fn distinct_keys(es: Seq<(Seq<char>, Seq<char>)>) -> bool {
    forall|i: int, j: int| 0 <= i < j < es.len() ==> es[i].0 != es[j].0
}

proof fn lemma_lookup_distinct(es: Seq<(Seq<char>, Seq<char>)>, i: int)
    requires
        distinct_keys(es),
        0 <= i < es.len(),
    ensures
        lookup(es, es[i].0) == Some(es[i].1),
    decreases es.len(),
{
    if i < es.len() - 1 {
        let rest = es.drop_last();
        assert(es[i].0 != es[es.len() - 1].0);
        assert(distinct_keys(rest)) by {
            assert forall|a: int, b: int| 0 <= a < b < rest.len() implies rest[a].0 != rest[b].0 by {
                assert(rest[a] == es[a] && rest[b] == es[b]);
            }
        }
        lemma_lookup_distinct(rest, i);
        assert(rest[i] == es[i]);
    }
}

/// Law: in a body of `key: value` lines with distinct keys, each key reads
/// back its own value.
pub proof fn distinct_body_reads_each_key(es: Seq<(Seq<char>, Seq<char>)>, i: int)
    requires
        forall|j: int| 0 <= j < es.len() ==> #[trigger] writable_entry(es[j].0, es[j].1),
        distinct_keys(es),
        0 <= i < es.len(),
    ensures
        lookup(entries_of(lines_of(body_of(es))), es[i].0) == Some(es[i].1),
{
    body_reads_back(es);
    lemma_lookup_distinct(es, i);
}

/// Law: the empty body has no entries, so every key reads as absent.
pub proof fn empty_body_has_no_entries()
    ensures
        entries_of(lines_of(Seq::<char>::empty())) == Seq::<(Seq<char>, Seq<char>)>::empty(),
{
    body_reads_back(Seq::<(Seq<char>, Seq<char>)>::empty());
}

/// A key character as the server writes them: a lower-case ASCII letter
/// or a dash.
pub open spec fn is_key_char(c: char) -> bool {
    (97 <= (c as u32) <= 122) || c == '-'
}

/// A non-empty key of lower-case ASCII letters and dashes.
pub open spec fn plain_key(k: Seq<char>) -> bool
    decreases k.len(),
{
    if k.len() == 0 {
        false
    } else if k.len() == 1 {
        is_key_char(k[0])
    } else {
        is_key_char(k[0]) && plain_key(k.drop_first())
    }
}

proof fn lemma_plain_key_chars(k: Seq<char>)
    requires
        plain_key(k),
    ensures
        k.len() > 0,
        forall|i: int| 0 <= i < k.len() ==> #[trigger] is_key_char(k[i]),
    decreases k.len(),
{
    if k.len() > 1 {
        lemma_plain_key_chars(k.drop_first());
        assert forall|i: int| 0 <= i < k.len() implies #[trigger] is_key_char(k[i]) by {
            if i > 0 {
                assert(k[i] == k.drop_first()[i - 1]);
            }
        }
    }
}

/// A value that a line can carry and give back: no newline, already
/// trimmed, not wrapped in double quotes.
pub open spec fn writable_value(v: Seq<char>) -> bool {
    &&& forall|i: int| 0 <= i < v.len() ==> v[i] != '\n'
    &&& trim(v) == v
    &&& unquote(v) == v
}

proof fn lemma_plain_key_writable(k: Seq<char>, v: Seq<char>)
    requires
        plain_key(k),
        writable_value(v),
    ensures
        writable_entry(k, v),
{
    lemma_plain_key_chars(k);
    assert(!is_space(k[0]) && !is_space(k.last())) by {
        assert(is_key_char(k[0]));
        assert(is_key_char(k[k.len() - 1]));
    }
    lemma_trim_start_non_space(k);
    lemma_trim_end_non_space(k);
    assert forall|i: int| 0 <= i < k.len() implies k[i] != ':' && k[i] != '\n' by {
        assert(is_key_char(k[i]));
    }
}

proof fn lemma_decimal_writable(n: nat)
    ensures
        writable_value(crate::text::decimal(n)),
{
    let d = crate::text::decimal(n);
    crate::text::lemma_decimal_digits(n);
    assert(crate::text::is_digit(d[0]));
    assert(crate::text::is_digit(d[d.len() - 1]));
    lemma_trim_start_non_space(d);
    lemma_trim_end_non_space(d);
    assert forall|i: int| 0 <= i < d.len() implies d[i] != '\n' by {
        assert(crate::text::is_digit(d[i]));
    }
}

proof fn lemma_lines_of_concat(s: Seq<char>, t: Seq<char>)
    requires
        ends_line(s),
    ensures
        lines_of(s + t) == lines_of(s).drop_last() + lines_of(t),
    decreases t.len(),
{
    lemma_lines_of_nonempty(s);
    let ls = lines_of(s);
    if t.len() == 0 {
        assert(s + t =~= s);
        assert(ls.last() == Seq::<char>::empty()) by {
            if s.len() == 0 {
                assert(ls =~= seq![Seq::<char>::empty()]);
            }
        }
        assert(lines_of(t) =~= seq![Seq::<char>::empty()]);
        assert(ls =~= ls.drop_last() + lines_of(t));
    } else {
        let u = t.drop_last();
        lemma_lines_of_concat(s, u);
        lemma_lines_of_nonempty(u);
        assert((s + t).drop_last() =~= s + u);
        assert((s + t).last() == t.last());
        let a = ls.drop_last();
        let b = lines_of(u);
        if t.last() == '\n' {
            assert((a + b).push(Seq::<char>::empty()) =~= a + b.push(Seq::<char>::empty()));
        } else {
            assert((a + b).update((a + b).len() - 1, (a + b).last().push(t.last())) =~= a + b.update(
                b.len() - 1,
                b.last().push(t.last()),
            ));
        }
    }
}

proof fn lemma_entries_of_concat(a: Seq<Seq<char>>, b: Seq<Seq<char>>)
    ensures
        entries_of(a + b) == entries_of(a) + entries_of(b),
    decreases b.len(),
{
    if b.len() == 0 {
        assert(a + b =~= a);
        assert(entries_of(a) + entries_of(b) =~= entries_of(a));
    } else {
        lemma_entries_of_concat(a, b.drop_last());
        assert((a + b).drop_last() =~= a + b.drop_last());
        assert((a + b).last() == b.last());
        match map_entry(b.last()) {
            Some(e) => {
                assert((entries_of(a) + entries_of(b.drop_last())).push(e) =~= entries_of(a)
                    + entries_of(b.drop_last()).push(e));
            },
            None => {},
        }
    }
}

proof fn lemma_lookup_concat(a: Seq<(Seq<char>, Seq<char>)>, b: Seq<(Seq<char>, Seq<char>)>, k: Seq<char>)
    ensures
        lookup(a + b, k) == match lookup(b, k) {
            Some(v) => Some(v),
            None => lookup(a, k),
        },
    decreases b.len(),
{
    if b.len() == 0 {
        assert(a + b =~= a);
    } else {
        lemma_lookup_concat(a, b.drop_last(), k);
        assert((a + b).drop_last() =~= a + b.drop_last());
        assert((a + b).last() == b.last());
    }
}

/// Law: a line `key: value` anywhere in a body, on a line of its own,
/// makes the key read `value` unless a later line has the same key (a
/// later line overrides an earlier one).
pub proof fn entry_line_anywhere_reads_back(
    pre: Seq<char>,
    key: Seq<char>,
    value: Seq<char>,
    post: Seq<char>,
)
    requires
        ends_line(pre),
        writable_entry(key, value),
    ensures
        lookup(entries_of(lines_of(pre + entry_line(key, value) + seq!['\n'] + post)), key) == match lookup(
            entries_of(lines_of(post)),
            key,
        ) {
            Some(v) => Some(v),
            None => Some(value),
        },
{
    let head = pre + entry_line(key, value) + seq!['\n'];
    appended_entry_reads_back(pre, key, value);
    assert(ends_line(head)) by {
        assert(head.last() == '\n');
    }
    lemma_lines_of_concat(head, post);
    lemma_lines_of_nonempty(head);
    let lh = lines_of(head);
    assert(lh.last() == Seq::<char>::empty()) by {
        assert(head.last() == '\n');
    }
    assert(lh.drop_last().push(Seq::<char>::empty()) =~= lh);
    lemma_entries_of_empty_line(lh.drop_last());
    lemma_entries_of_concat(lh.drop_last(), lines_of(post));
    lemma_lookup_concat(entries_of(lh.drop_last()), entries_of(lines_of(post)), key);
}

/// Law: the line `key: <n>` for a plain key, anywhere in a body, makes the
/// key read the number `n`, unless a later line has the same key.
pub proof fn number_line_reads_back(pre: Seq<char>, key: Seq<char>, n: u64, post: Seq<char>)
    requires
        ends_line(pre),
        plain_key(key),
        lookup(entries_of(lines_of(post)), key) is None,
    ensures
        spec_get_u64(
            entries_of(
                lines_of(pre + entry_line(key, crate::text::decimal(n as nat)) + seq!['\n'] + post),
            ),
            key,
        ) == n,
{
    lemma_decimal_writable(n as nat);
    lemma_plain_key_writable(key, crate::text::decimal(n as nat));
    entry_line_anywhere_reads_back(pre, key, crate::text::decimal(n as nat), post);
    crate::text::decimal_parse_roundtrip(n as nat, u64::MAX as nat);
}

/// Law: the line `key: value` for a plain key, anywhere in a body, makes
/// the key read the text `value` (and the flag `value == "true"`), unless a
/// later line has the same key.
pub proof fn text_line_reads_back(pre: Seq<char>, key: Seq<char>, value: Seq<char>, post: Seq<char>)
    requires
        ends_line(pre),
        plain_key(key),
        writable_value(value),
        lookup(entries_of(lines_of(post)), key) is None,
    ensures
        spec_get_str(entries_of(lines_of(pre + entry_line(key, value) + seq!['\n'] + post)), key)
            == value,
        spec_get_bool(entries_of(lines_of(pre + entry_line(key, value) + seq!['\n'] + post)), key)
            == (value == seq!['t', 'r', 'u', 'e']),
{
    lemma_plain_key_writable(key, value);
    entry_line_anywhere_reads_back(pre, key, value, post);
}

} // verus!
