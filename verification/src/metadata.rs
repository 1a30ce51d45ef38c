//! The `Upload-Metadata` header codec.
//!
//! A header value is a comma-separated list of pairs; each pair, after the
//! surrounding whitespace is trimmed, is either a bare key or a key and a
//! base64 value separated by a single space. Keys and values are kept
//! verbatim; values are base64-decoded only on demand, by [`Metadata::get_raw`].

use base64::Engine;
use vstd::prelude::*;
use vstd::string::StrSliceExecFns;
use vstd::string::StringExecFns;

verus! {

/// What base64's standard-alphabet decoder returns on a given input:
/// the decoded bytes, or nothing when the input is not valid base64.
pub uninterp spec fn b64_decode_of(s: Seq<char>) -> Option<Seq<u8>>;

/// Relies on base64's `Engine::decode` with the `STANDARD` engine
/// (RFC 4648 alphabet, padding required): the result is a function of the
/// input characters alone. The error message is the decoder's own.
#[verifier::external_body]
fn b64_decode(s: &str) -> (r: Result<Vec<u8>, String>)
    ensures
        r is Ok <==> b64_decode_of(s@) is Some,
        r matches Ok(v) ==> Some(v@) == b64_decode_of(s@),
{
    match base64::engine::general_purpose::STANDARD.decode(s) {
        Ok(bytes) => Ok(bytes),
        Err(e) => Err(e.to_string()),
    }
}

/// An error from parsing a metadata header or reading one of its values.
#[derive(Debug)]
pub enum MetadataError {
    /// The requested key is not present.
    InvalidKey,
    /// The value under the key is not valid base64; carries the decoder's message.
    DecodeError(String),
    /// The header value does not follow the metadata grammar.
    InvalidMetadataFormat,
}

impl MetadataError {
    /// Spec-level equality on error values; decode messages must match.
    pub open spec fn eq_spec_value(&self, other: &MetadataError) -> bool {
        match (self, other) {
            (MetadataError::InvalidKey, MetadataError::InvalidKey) => true,
            (MetadataError::DecodeError(a), MetadataError::DecodeError(b)) => a@ == b@,
            (
                MetadataError::InvalidMetadataFormat,
                MetadataError::InvalidMetadataFormat,
            ) => true,
            _ => false,
        }
    }
}

impl PartialEq for MetadataError {
    fn eq(&self, other: &MetadataError) -> (r: bool) {
        match (self, other) {
            (MetadataError::InvalidKey, MetadataError::InvalidKey) => true,
            (MetadataError::DecodeError(a), MetadataError::DecodeError(b)) => a.eq(b),
            (
                MetadataError::InvalidMetadataFormat,
                MetadataError::InvalidMetadataFormat,
            ) => true,
            _ => false,
        }
    }
}

impl vstd::std_specs::cmp::PartialEqSpecImpl for MetadataError {
    open spec fn obeys_eq_spec() -> bool {
        true
    }

    open spec fn eq_spec(&self, other: &MetadataError) -> bool {
        self.eq_spec_value(other)
    }
}

/// The whitespace characters that are trimmed around a pair.
pub open spec fn is_space(c: char) -> bool {
    c == ' ' || c == '\t' || c == '\r' || c == '\n'
}

/// A token may carry neither a comma (the pair separator) nor whitespace.
pub open spec fn valid_token(s: Seq<char>) -> bool {
    forall|i: int| 0 <= i < s.len() ==> !is_space(#[trigger] s[i]) && s[i] != ','
}

/// A well-formed entry: a non-empty key token and a value token.
pub open spec fn wf_entry(e: (Seq<char>, Seq<char>)) -> bool {
    e.0.len() > 0 && valid_token(e.0) && valid_token(e.1)
}

/// Well-formed entry list: every entry well formed, keys distinct.
pub open spec fn wf_entries(es: Seq<(Seq<char>, Seq<char>)>) -> bool {
    (forall|i: int| 0 <= i < es.len() ==> wf_entry(#[trigger] es[i])) && (forall|i: int, j: int|
        0 <= i < j < es.len() ==> (#[trigger] es[i]).0 != (#[trigger] es[j]).0)
}

/// The mapping an entry list denotes.
pub open spec fn map_of(es: Seq<(Seq<char>, Seq<char>)>) -> Map<Seq<char>, Seq<char>>
    decreases es.len(),
{
    if es.len() == 0 {
        Map::empty()
    } else {
        map_of(es.drop_last()).insert(es.last().0, es.last().1)
    }
}

/// Index of `k` among the keys of `es`, or `es.len()` when absent.
pub open spec fn index_of_key(es: Seq<(Seq<char>, Seq<char>)>, k: Seq<char>) -> int
    decreases es.len(),
{
    if es.len() == 0 {
        0
    } else if es[0].0 == k {
        0
    } else {
        1 + index_of_key(es.drop_first(), k)
    }
}

/// Replaces the value under `k`, or appends the new entry when `k` is absent.
pub open spec fn upsert(
    es: Seq<(Seq<char>, Seq<char>)>,
    k: Seq<char>,
    v: Seq<char>,
) -> Seq<(Seq<char>, Seq<char>)> {
    let i = index_of_key(es, k);
    if i < es.len() {
        es.update(i, (k, v))
    } else {
        es.push((k, v))
    }
}

/// First position of a comma in `s` at or after `from`; `s.len()` when none.
pub open spec fn find_comma(s: Seq<char>, from: int) -> int
    decreases s.len() - from,
{
    if from < 0 || from >= s.len() {
        s.len() as int
    } else if s[from] == ',' {
        from
    } else {
        find_comma(s, from + 1)
    }
}

/// First position of a whitespace character in `s` at or after `from`;
/// `s.len()` when none.
pub open spec fn find_space(s: Seq<char>, from: int) -> int
    decreases s.len() - from,
{
    if from < 0 || from >= s.len() {
        s.len() as int
    } else if is_space(s[from]) {
        from
    } else {
        find_space(s, from + 1)
    }
}

/// `s` without its leading whitespace.
pub open spec fn ltrim(s: Seq<char>) -> Seq<char>
    decreases s.len(),
{
    if s.len() > 0 && is_space(s[0]) {
        ltrim(s.drop_first())
    } else {
        s
    }
}

/// `s` without its trailing whitespace.
pub open spec fn rtrim(s: Seq<char>) -> Seq<char>
    decreases s.len(),
{
    if s.len() > 0 && is_space(s.last()) {
        rtrim(s.drop_last())
    } else {
        s
    }
}

/// `s` without leading and trailing whitespace.
pub open spec fn trim(s: Seq<char>) -> Seq<char> {
    rtrim(ltrim(s))
}

/// What one comma-separated segment contributes: `None` when the segment is
/// ill-formed, `Some(None)` when it is empty after trimming (and is skipped),
/// `Some(Some((key, value)))` otherwise. A bare key gets the empty value; a
/// key and a value must be separated by exactly one space, and the value must
/// contain no further whitespace.
pub open spec fn parse_pair(seg: Seq<char>) -> Option<Option<(Seq<char>, Seq<char>)>> {
    let t = trim(seg);
    if t.len() == 0 {
        Some(None)
    } else {
        let k = find_space(t, 0);
        if k == t.len() {
            Some(Some((t, Seq::empty())))
        } else if t[k] != ' ' {
            None
        } else {
            let key = t.take(k);
            let value = t.skip(k + 1);
            if find_space(value, 0) == value.len() {
                Some(Some((key, value)))
            } else {
                None
            }
        }
    }
}

/// The comma-separated segments of `s` from position `from` on.
pub open spec fn segments(s: Seq<char>, from: int) -> Seq<Seq<char>>
    decreases s.len() - from,
{
    let i = find_comma(s, from);
    if i >= s.len() {
        seq![s.subrange(from, s.len() as int)]
    } else {
        proof {
            lemma_find_comma_lower_bound(s, from);
        }
        seq![s.subrange(from, i)] + segments(s, i + 1)
    }
}

/// When `find_comma` finds a comma, it lies at or after the start position.
pub proof fn lemma_find_comma_lower_bound(s: Seq<char>, from: int)
    ensures
        find_comma(s, from) < s.len() ==> find_comma(s, from) >= from,
    decreases s.len() - from,
{
    if 0 <= from < s.len() && s[from] != ',' {
        lemma_find_comma_lower_bound(s, from + 1);
    }
}

/// Folds the segments into an entry list; `None` when any segment is
/// ill-formed. Later pairs replace earlier values under the same key.
pub open spec fn parse_fold(
    acc: Seq<(Seq<char>, Seq<char>)>,
    segs: Seq<Seq<char>>,
) -> Option<Seq<(Seq<char>, Seq<char>)>>
    decreases segs.len(),
{
    if segs.len() == 0 {
        Some(acc)
    } else {
        match parse_pair(segs[0]) {
            None => None,
            Some(None) => parse_fold(acc, segs.drop_first()),
            Some(Some((k, v))) => parse_fold(upsert(acc, k, v), segs.drop_first()),
        }
    }
}

/// The metadata header grammar: the entry list of `s`, or `None` when `s`
/// is empty or some pair is ill-formed.
pub open spec fn parse_spec(s: Seq<char>) -> Option<Seq<(Seq<char>, Seq<char>)>> {
    if s.len() == 0 {
        None
    } else {
        parse_fold(Seq::empty(), segments(s, 0))
    }
}

/// What `find_comma` returns: the first comma at or after `from`, if any.
pub proof fn lemma_find_comma_props(s: Seq<char>, from: int)
    requires
        0 <= from <= s.len(),
    ensures
        from <= find_comma(s, from) <= s.len(),
        find_comma(s, from) < s.len() ==> s[find_comma(s, from)] == ',',
        forall|j: int| from <= j < find_comma(s, from) ==> s[j] != ',',
    decreases s.len() - from,
{
    if from < s.len() && s[from] != ',' {
        lemma_find_comma_props(s, from + 1);
    }
}

/// What `find_space` returns: the first whitespace at or after `from`, if any.
pub proof fn lemma_find_space_props(s: Seq<char>, from: int)
    requires
        0 <= from <= s.len(),
    ensures
        from <= find_space(s, from) <= s.len(),
        find_space(s, from) < s.len() ==> is_space(s[find_space(s, from)]),
        forall|j: int| from <= j < find_space(s, from) ==> !is_space(s[j]),
    decreases s.len() - from,
{
    if from < s.len() && !is_space(s[from]) {
        lemma_find_space_props(s, from + 1);
    }
}

/// `ltrim` keeps a suffix whose first character, if any, is not whitespace.
pub proof fn lemma_ltrim_props(s: Seq<char>)
    ensures
        exists|a: int| 0 <= a <= s.len() && ltrim(s) =~= s.skip(a),
        ltrim(s).len() > 0 ==> !is_space(ltrim(s)[0]),
    decreases s.len(),
{
    if s.len() > 0 && is_space(s[0]) {
        lemma_ltrim_props(s.drop_first());
        let a0 = choose|a: int| 0 <= a <= s.drop_first().len() && ltrim(s.drop_first()) =~= s
            .drop_first().skip(a);
        assert(s.drop_first().skip(a0) =~= s.skip(a0 + 1));
    } else {
        assert(ltrim(s) =~= s.skip(0));
    }
}

/// `rtrim` keeps a prefix whose last character, if any, is not whitespace.
pub proof fn lemma_rtrim_props(s: Seq<char>)
    ensures
        exists|b: int| 0 <= b <= s.len() && rtrim(s) =~= s.take(b),
        rtrim(s).len() > 0 ==> !is_space(rtrim(s).last()),
    decreases s.len(),
{
    if s.len() > 0 && is_space(s.last()) {
        lemma_rtrim_props(s.drop_last());
        let b0 = choose|b: int| 0 <= b <= s.drop_last().len() && rtrim(s.drop_last()) =~= s
            .drop_last().take(b);
        assert(s.drop_last().take(b0) =~= s.take(b0));
    } else {
        assert(rtrim(s) =~= s.take(s.len() as int));
    }
}

/// A comma-free sequence stays comma-free under trimming, and a trimmed
/// sequence has no whitespace at its edges.
pub proof fn lemma_trim_chars(s: Seq<char>)
    requires
        forall|j: int| 0 <= j < s.len() ==> s[j] != ',',
    ensures
        forall|i: int| 0 <= i < trim(s).len() ==> #[trigger] trim(s)[i] != ',',
        trim(s).len() > 0 ==> !is_space(trim(s)[0]) && !is_space(trim(s).last()),
{
    lemma_ltrim_props(s);
    let a = choose|a: int| 0 <= a <= s.len() && ltrim(s) =~= s.skip(a);
    lemma_rtrim_props(ltrim(s));
    let b = choose|b: int| 0 <= b <= ltrim(s).len() && rtrim(ltrim(s)) =~= ltrim(s).take(b);
    assert forall|i: int| 0 <= i < trim(s).len() implies #[trigger] trim(s)[i] != ',' by {
        assert(trim(s)[i] == s[a + i]);
    }
    if trim(s).len() > 0 {
        if is_space(trim(s)[0]) {
            assert(ltrim(s)[0] == trim(s)[0]);
        }
    }
}

/// Where `index_of_key` points: the first entry with key `k`, if any.
pub proof fn lemma_index_of_key_props(es: Seq<(Seq<char>, Seq<char>)>, k: Seq<char>)
    ensures
        0 <= index_of_key(es, k) <= es.len(),
        index_of_key(es, k) < es.len() ==> es[index_of_key(es, k)].0 == k,
        forall|j: int| 0 <= j < index_of_key(es, k) && j < es.len() ==> (#[trigger] es[j]).0 != k,
    decreases es.len(),
{
    if es.len() > 0 && es[0].0 != k {
        lemma_index_of_key_props(es.drop_first(), k);
        assert forall|j: int|
            0 <= j < index_of_key(es, k) && j < es.len() implies (#[trigger] es[j]).0 != k by {
            if j > 0 {
                assert(es.drop_first()[j - 1] == es[j]);
            }
        }
    }
}

/// An upsert of a well-formed entry keeps the entry list well formed.
pub proof fn lemma_upsert_wf(es: Seq<(Seq<char>, Seq<char>)>, k: Seq<char>, v: Seq<char>)
    requires
        wf_entries(es),
        wf_entry((k, v)),
    ensures
        wf_entries(upsert(es, k, v)),
{
    lemma_index_of_key_props(es, k);
}

/// Whether `s` can stand as a metadata token: no whitespace, no comma.
fn is_valid_token(s: &str) -> (r: bool)
    ensures
        r == valid_token(s@),
{
    let n = s.unicode_len();
    let mut i: usize = 0;
    while i < n
        invariant
            0 <= i <= n == s@.len(),
            forall|j: int| 0 <= j < i ==> !is_space(#[trigger] s@[j]) && s@[j] != ',',
        decreases n - i,
    {
        let c = s.get_char(i);
        if is_space_char(c) || c == ',' {
            return false;
        }
        i = i + 1;
    }
    true
}

/// Whether `c` is one of the whitespace characters trimmed around a pair.
fn is_space_char(c: char) -> (r: bool)
    ensures
        r == is_space(c),
{
    c == ' ' || c == '\t' || c == '\r' || c == '\n'
}

/// First comma of `s` at or after `from`, or the length when there is none.
fn find_comma_at(s: &str, from: usize) -> (i: usize)
    requires
        from <= s@.len(),
    ensures
        i == find_comma(s@, from as int),
        from <= i <= s@.len(),
{
    let n = s.unicode_len();
    let mut i = from;
    while i < n
        invariant
            from <= i <= n == s@.len(),
            find_comma(s@, from as int) == find_comma(s@, i as int),
        decreases n - i,
    {
        if s.get_char(i) == ',' {
            return i;
        }
        i = i + 1;
    }
    i
}

/// First whitespace character of `s` at or after `from`, or the length.
fn find_space_at(s: &str, from: usize) -> (i: usize)
    requires
        from <= s@.len(),
    ensures
        i == find_space(s@, from as int),
        from <= i <= s@.len(),
{
    let n = s.unicode_len();
    let mut i = from;
    while i < n
        invariant
            from <= i <= n == s@.len(),
            find_space(s@, from as int) == find_space(s@, i as int),
        decreases n - i,
    {
        if is_space_char(s.get_char(i)) {
            return i;
        }
        i = i + 1;
    }
    i
}

/// `seg` without leading and trailing whitespace.
fn trim_str(seg: &str) -> (t: &str)
    ensures
        t@ == trim(seg@),
{
    let n = seg.unicode_len();
    let mut a: usize = 0;
    proof {
        assert(seg@.skip(0) =~= seg@);
    }
    while a < n && is_space_char(seg.get_char(a))
        invariant
            0 <= a <= n == seg@.len(),
            ltrim(seg@) == ltrim(seg@.skip(a as int)),
        decreases n - a,
    {
        proof {
            assert(seg@.skip(a as int).drop_first() =~= seg@.skip(a + 1));
        }
        a = a + 1;
    }
    proof {
        if a == n {
            assert(seg@.skip(a as int) =~= Seq::<char>::empty());
        }
        assert(ltrim(seg@) == seg@.skip(a as int));
        assert(seg@.skip(a as int) =~= seg@.subrange(a as int, n as int));
    }
    let mut b: usize = n;
    while b > a && is_space_char(seg.get_char(b - 1))
        invariant
            a <= b <= n == seg@.len(),
            ltrim(seg@) == seg@.subrange(a as int, n as int),
            rtrim(ltrim(seg@)) == rtrim(seg@.subrange(a as int, b as int)),
        decreases b,
    {
        proof {
            assert(seg@.subrange(a as int, b as int).last() == seg@[b - 1]);
            assert(seg@.subrange(a as int, b as int).drop_last() =~= seg@.subrange(
                a as int,
                b - 1,
            ));
        }
        b = b - 1;
    }
    proof {
        if b == a {
            assert(seg@.subrange(a as int, b as int) =~= Seq::<char>::empty());
        }
        assert(trim(seg@) == seg@.subrange(a as int, b as int));
    }
    seg.substring_char(a, b)
}

/// An entry list built by upserting `ps` onto `acc`, left to right.
pub open spec fn upsert_all(
    acc: Seq<(Seq<char>, Seq<char>)>,
    ps: Seq<(Seq<char>, Seq<char>)>,
) -> Seq<(Seq<char>, Seq<char>)>
    decreases ps.len(),
{
    if ps.len() == 0 {
        acc
    } else {
        upsert_all(upsert(acc, ps[0].0, ps[0].1), ps.drop_first())
    }
}

/// One entry rendered back into header form: the key alone when the value
/// is empty, else the key and the value separated by one space.
pub open spec fn enc_pair(e: (Seq<char>, Seq<char>)) -> Seq<char> {
    if e.1.len() == 0 {
        e.0
    } else {
        e.0 + seq![' '] + e.1
    }
}

/// An entry list rendered back into header form, comma-separated.
pub open spec fn encode_pairs(es: Seq<(Seq<char>, Seq<char>)>) -> Seq<char>
    decreases es.len(),
{
    if es.len() == 0 {
        Seq::empty()
    } else if es.len() == 1 {
        enc_pair(es[0])
    } else {
        encode_pairs(es.drop_last()) + seq![','] + enc_pair(es.last())
    }
}

/// The metadata of a tus upload: keys mapped to their still-encoded base64
/// values, kept verbatim as they stood in the header.
#[derive(Debug)]
pub struct Metadata {
    entries: Vec<(String, String)>,
}

impl View for Metadata {
    type V = Map<Seq<char>, Seq<char>>;

    open spec fn view(&self) -> Map<Seq<char>, Seq<char>> {
        map_of(self.pairs())
    }
}

impl Metadata {
    /// The entry list, in insertion order.
    pub closed spec fn pairs(&self) -> Seq<(Seq<char>, Seq<char>)> {
        Seq::new(self.entries@.len(), |i: int| (self.entries@[i].0@, self.entries@[i].1@))
    }

    /// Well-formedness: entries are valid tokens with distinct keys.
    pub open spec fn wf(&self) -> bool {
        wf_entries(self.pairs())
    }

    /// Creates an empty metadata mapping.
    pub fn new() -> (r: Metadata)
        ensures
            r.pairs() == Seq::<(Seq<char>, Seq<char>)>::empty(),
            r@ == Map::<Seq<char>, Seq<char>>::empty(),
            r.wf(),
    {
        let r = Metadata { entries: Vec::new() };
        proof {
            assert(r.pairs() =~= Seq::<(Seq<char>, Seq<char>)>::empty());
        }
        r
    }

    /// The number of entries.
    pub fn len(&self) -> (r: usize)
        ensures
            r == self.pairs().len(),
    {
        self.entries.len()
    }

    /// Whether the mapping has no entry.
    pub fn is_empty(&self) -> (r: bool)
        ensures
            r == (self.pairs().len() == 0),
    {
        self.entries.len() == 0
    }

    /// A copy of the mapping with the same entries.
    pub fn clone_map(&self) -> (r: Metadata)
        ensures
            r.pairs() == self.pairs(),
    {
        let n = self.entries.len();
        let mut entries: Vec<(String, String)> = Vec::new();
        let mut i: usize = 0;
        while i < n
            invariant
                0 <= i <= n == self.entries.len(),
                entries@.len() == i,
                forall|j: int|
                    0 <= j < i ==> (#[trigger] entries@[j]).0@ == self.pairs()[j].0 && entries@[
                    j].1@ == self.pairs()[j].1,
            decreases n - i,
        {
            entries.push((self.entries[i].0.clone(), self.entries[i].1.clone()));
            i = i + 1;
        }
        let r = Metadata { entries };
        proof {
            assert(r.pairs() =~= self.pairs());
        }
        r
    }

    /// Replaces the value under `key`, or appends the new entry.
    fn upsert_entry(&mut self, key: String, value: String)
        ensures
            final(self).pairs() == upsert(old(self).pairs(), key@, value@),
    {
        let n = self.entries.len();
        let mut i: usize = 0;
        while i < n
            invariant
                0 <= i <= n == self.entries.len(),
                self.pairs() == old(self).pairs(),
                forall|j: int| 0 <= j < i ==> (#[trigger] old(self).pairs()[j]).0 != key@,
            decreases n - i,
        {
            if self.entries[i].0.eq(&key) {
                proof {
                    let es = old(self).pairs();
                    lemma_index_of_key_props(es, key@);
                    let idx = index_of_key(es, key@);
                    assert(es[i as int].0 == key@);
                    if idx < i as int {
                        assert(es[idx].0 != key@);
                    }
                    if idx > i as int {
                        assert(es[i as int].0 != key@);
                    }
                    assert(idx == i as int);
                }
                self.entries.set(i, (key, value));
                proof {
                    assert(final(self).pairs() =~= old(self).pairs().update(
                        i as int,
                        (key@, value@),
                    ));
                }
                return ;
            }
            proof {
                assert(old(self).pairs()[i as int].0 != key@);
            }
            i = i + 1;
        }
        proof {
            lemma_index_of_key_props(old(self).pairs(), key@);
            let idx = index_of_key(old(self).pairs(), key@);
            if idx < old(self).pairs().len() {
                assert(old(self).pairs()[idx].0 != key@);
            }
            assert(idx == old(self).pairs().len());
        }
        self.entries.push((key, value));
        proof {
            assert(final(self).pairs() =~= old(self).pairs().push((key@, value@)));
        }
    }

    /// Folds one comma-separated segment into the mapping; `false` means the
    /// segment is ill-formed and the mapping was left as it stood.
    fn apply_segment(&mut self, seg: &str) -> (ok: bool)
        ensures
            parse_pair(seg@) is None ==> !ok && final(self).pairs() == old(self).pairs(),
            parse_pair(seg@) matches Some(None) ==> ok && final(self).pairs() == old(self).pairs(),
            parse_pair(seg@) matches Some(Some(kv)) ==> ok && final(self).pairs() == upsert(
                old(self).pairs(),
                kv.0,
                kv.1,
            ),
    {
        let t = trim_str(seg);
        let n = t.unicode_len();
        if n == 0 {
            return true;
        }
        let k = find_space_at(t, 0);
        if k == n {
            let key = t.to_owned();
            self.upsert_entry(key, String::new());
            return true;
        }
        if t.get_char(k) != ' ' {
            return false;
        }
        let key = t.substring_char(0, k).to_owned();
        let value = t.substring_char(k + 1, n).to_owned();
        proof {
            assert(key@ =~= trim(seg@).take(k as int));
            assert(value@ =~= trim(seg@).skip(k + 1));
        }
        let vlen = value.as_str().unicode_len();
        if find_space_at(value.as_str(), 0) != vlen {
            return false;
        }
        self.upsert_entry(key, value);
        true
    }

    /// Parses a tus `Upload-Metadata` header value.
    ///
    /// Fails with [`MetadataError::InvalidMetadataFormat`] when `value` is
    /// empty or some non-empty pair is not a key, or a key and a base64
    /// value separated by a single space. Pairs left empty by surrounding
    /// commas are skipped; a later pair replaces an earlier value under the
    /// same key.
    pub fn try_from(value: &str) -> (r: Result<Metadata, MetadataError>)
        ensures
            r is Ok <==> parse_spec(value@) is Some,
            r matches Ok(m) ==> Some(m.pairs()) == parse_spec(value@) && m.wf(),
            r matches Err(e) ==> e == MetadataError::InvalidMetadataFormat,
    {
        let n = value.unicode_len();
        if n == 0 {
            return Err(MetadataError::InvalidMetadataFormat);
        }
        let mut m = Metadata::new();
        let mut p: usize = 0;
        loop
            invariant_except_break
                parse_fold(m.pairs(), segments(value@, p as int)) == parse_fold(
                    Seq::<(Seq<char>, Seq<char>)>::empty(),
                    segments(value@, 0),
                ),
            invariant
                0 <= p <= n == value@.len(),
                0 < n,
                m.wf(),
            ensures
                Some(m.pairs()) == parse_fold(
                    Seq::<(Seq<char>, Seq<char>)>::empty(),
                    segments(value@, 0),
                ),
                m.wf(),
            decreases n - p,
        {
            let i = find_comma_at(value, p);
            let seg = value.substring_char(p, i);
            proof {
                lemma_find_comma_props(value@, p as int);
                assert(forall|j: int| 0 <= j < seg@.len() ==> #[trigger] seg@[j] != ',');
                lemma_parse_pair_wf(seg@);
                if i < n {
                    assert(segments(value@, p as int) =~= seq![seg@] + segments(value@, i + 1));
                    assert((seq![seg@] + segments(value@, i + 1)).drop_first() =~= segments(
                        value@,
                        i + 1,
                    ));
                } else {
                    assert(segments(value@, p as int) =~= seq![seg@]);
                }
            }
            let ghost pairs_before = m.pairs();
            let ok = m.apply_segment(seg);
            if !ok {
                return Err(MetadataError::InvalidMetadataFormat);
            }
            proof {
                match parse_pair(seg@) {
                    Some(Some(kv)) => lemma_upsert_wf(pairs_before, kv.0, kv.1),
                    _ => (),
                }
            }
            if i == n {
                proof {
                    assert(seq![seg@].drop_first() =~= Seq::<Seq<char>>::empty());
                    assert(seq![seg@][0] == seg@);
                    assert(parse_fold(m.pairs(), Seq::<Seq<char>>::empty()) == Some(m.pairs()));
                    assert(parse_fold(pairs_before, seq![seg@]) == Some(m.pairs()));
                }
                break ;
            }
            proof {
                let rest = segments(value@, i + 1);
                assert((seq![seg@] + rest)[0] == seg@);
                assert(parse_fold(pairs_before, seq![seg@] + rest) == parse_fold(m.pairs(), rest));
            }
            p = i + 1;
        }
        Ok(m)
    }

    /// The raw (still base64-encoded) value under `key`, if any.
    pub fn get(&self, key: &str) -> (r: Option<&String>)
        requires
            self.wf(),
        ensures
            r is Some <==> self@.contains_key(key@),
            r matches Some(v) ==> self@.contains_key(key@) && v@ == self@[key@],
    {
        let k = key.to_owned();
        let n = self.entries.len();
        let mut i: usize = 0;
        while i < n
            invariant
                0 <= i <= n == self.entries.len(),
                k@ == key@,
                self.wf(),
                forall|j: int| 0 <= j < i ==> (#[trigger] self.pairs()[j]).0 != key@,
            decreases n - i,
        {
            if self.entries[i].0.eq(&k) {
                proof {
                    lemma_map_of_props(self.pairs());
                    assert(self.pairs()[i as int].0 == key@);
                    assert(self@.contains_key(key@) && self@[key@] == self.pairs()[i as int].1);
                }
                return Some(&self.entries[i].1);
            }
            proof {
                assert(self.pairs()[i as int].0 != key@);
            }
            i = i + 1;
        }
        proof {
            lemma_map_of_props(self.pairs());
            if self@.contains_key(key@) {
                let iok = index_of_key(self.pairs(), key@);
                assert(self.pairs()[iok].0 != key@);
            }
        }
        None
    }

    /// The base64-decoded bytes of the value under `key`.
    ///
    /// Fails with [`MetadataError::InvalidKey`] when the key is absent, and
    /// with [`MetadataError::DecodeError`] when the stored value is not
    /// valid base64.
    pub fn get_raw(&self, key: &str) -> (r: Result<Vec<u8>, MetadataError>)
        requires
            self.wf(),
        ensures
            r is Ok <==> (self@.contains_key(key@) && b64_decode_of(self@[key@]) is Some),
            r matches Ok(v) ==> Some(v@) == b64_decode_of(self@[key@]),
            !self@.contains_key(key@) ==> r == Err::<Vec<u8>, MetadataError>(
                MetadataError::InvalidKey,
            ),
            (self@.contains_key(key@) && b64_decode_of(self@[key@]) is None) ==> (r matches Err(e)
                && e is DecodeError),
    {
        let value = match self.get(key) {
            Some(v) => v,
            None => {
                return Err(MetadataError::InvalidKey);
            },
        };
        match b64_decode(value.as_str()) {
            Ok(bytes) => Ok(bytes),
            Err(msg) => Err(MetadataError::DecodeError(msg)),
        }
    }

    /// The entries as owned pairs, in order; how a host serializes the
    /// mapping into its own record format.
    pub fn to_pairs(&self) -> (r: Vec<(String, String)>)
        ensures
            r@.len() == self.pairs().len(),
            forall|i: int|
                0 <= i < r@.len() ==> (#[trigger] r@[i]).0@ == self.pairs()[i].0 && r@[i].1@
                    == self.pairs()[i].1,
    {
        let n = self.entries.len();
        let mut out: Vec<(String, String)> = Vec::new();
        let mut i: usize = 0;
        while i < n
            invariant
                0 <= i <= n == self.entries.len(),
                out@.len() == i,
                forall|j: int|
                    0 <= j < i ==> (#[trigger] out@[j]).0@ == self.pairs()[j].0 && out@[j].1@
                        == self.pairs()[j].1,
            decreases n - i,
        {
            out.push((self.entries[i].0.clone(), self.entries[i].1.clone()));
            i = i + 1;
        }
        out
    }

    /// Builds a mapping from owned pairs, validating each entry: a
    /// non-empty key and no whitespace or comma in any token. A later pair
    /// replaces an earlier value under the same key.
    pub fn from_pairs(pairs: Vec<(String, String)>) -> (r: Result<Metadata, MetadataError>)
        ensures
            r is Ok <==> (forall|i: int|
                0 <= i < pairs@.len() ==> wf_entry(
                    ((#[trigger] pairs@[i]).0@, pairs@[i].1@),
                )),
            r matches Ok(m) ==> m.wf() && m.pairs() == upsert_all(
                Seq::empty(),
                Seq::new(pairs@.len(), |i: int| (pairs@[i].0@, pairs@[i].1@)),
            ),
            r matches Err(e) ==> e == MetadataError::InvalidMetadataFormat,
    {
        let ghost views = Seq::new(pairs@.len(), |i: int| (pairs@[i].0@, pairs@[i].1@));
        let mut m = Metadata::new();
        let n = pairs.len();
        let mut i: usize = 0;
        proof {
            assert(views.skip(0) =~= views);
        }
        while i < n
            invariant
                0 <= i <= n == pairs@.len(),
                views == Seq::new(pairs@.len(), |j: int| (pairs@[j].0@, pairs@[j].1@)),
                m.wf(),
                forall|j: int| 0 <= j < i ==> wf_entry((#[trigger] views[j].0, views[j].1)),
                upsert_all(m.pairs(), views.skip(i as int)) == upsert_all(
                    Seq::<(Seq<char>, Seq<char>)>::empty(),
                    views,
                ),
            decreases n - i,
        {
            let key_ok = !pairs[i].0.as_str().is_empty() && is_valid_token(pairs[i].0.as_str());
            let value_ok = is_valid_token(pairs[i].1.as_str());
            if !key_ok || !value_ok {
                proof {
                    assert(views[i as int] == (pairs@[i as int].0@, pairs@[i as int].1@));
                    assert(!wf_entry((pairs@[i as int].0@, pairs@[i as int].1@)));
                }
                return Err(MetadataError::InvalidMetadataFormat);
            }
            let ghost pairs_before = m.pairs();
            m.upsert_entry(pairs[i].0.clone(), pairs[i].1.clone());
            proof {
                lemma_upsert_wf(pairs_before, views[i as int].0, views[i as int].1);
                assert(views.skip(i as int)[0] == views[i as int]);
                assert(views.skip(i as int).drop_first() =~= views.skip(i + 1));
            }
            i = i + 1;
        }
        proof {
            assert(views.skip(n as int) =~= Seq::<(Seq<char>, Seq<char>)>::empty());
            assert forall|j: int|
                0 <= j < pairs@.len() implies wf_entry(
                ((#[trigger] pairs@[j]).0@, pairs@[j].1@)) by {
                assert(views[j] == (pairs@[j].0@, pairs@[j].1@));
                assert(wf_entry((views[j].0, views[j].1)));
            }
        }
        Ok(m)
    }

    /// Renders the mapping back into an `Upload-Metadata` header value.
    pub fn to_header(&self) -> (r: String)
        ensures
            r@ == encode_pairs(self.pairs()),
    {
        proof {
            reveal_strlit(",");
            reveal_strlit(" ");
        }
        let mut out = String::new();
        let n = self.entries.len();
        let mut i: usize = 0;
        while i < n
            invariant
                0 <= i <= n == self.entries.len(),
                out@ == encode_pairs(self.pairs().take(i as int)),
            decreases n - i,
        {
            proof {
                reveal_strlit(",");
                reveal_strlit(" ");
                assert(self.pairs().take(i + 1).drop_last() =~= self.pairs().take(i as int));
                assert(self.pairs().take(i + 1).last() == self.pairs()[i as int]);
            }
            if i > 0 {
                out.append(",");
            }
            out.append(self.entries[i].0.as_str());
            if !self.entries[i].1.as_str().is_empty() {
                out.append(" ");
                out.append(self.entries[i].1.as_str());
            }
            proof {
                let e = self.pairs()[i as int];
                if e.1.len() == 0 {
                    assert(enc_pair(e) == e.0);
                } else {
                    assert(enc_pair(e) =~= e.0 + seq![' '] + e.1);
                }
                if i == 0 {
                    assert(encode_pairs(self.pairs().take(1)) == enc_pair(self.pairs()[0]));
                    assert(out@ =~= enc_pair(self.pairs()[0]));
                } else {
                    assert(out@ =~= encode_pairs(self.pairs().take(i as int)) + seq![',']
                        + enc_pair(e));
                }
            }
            i = i + 1;
        }
        proof {
            assert(self.pairs().take(n as int) =~= self.pairs());
        }
        out
    }
}

/// How a well-formed entry list and the mapping it denotes correspond:
/// every entry is in the mapping, and every key of the mapping points back
/// at its (unique) entry.
#[verifier::rlimit(50)]
pub proof fn lemma_map_of_props(es: Seq<(Seq<char>, Seq<char>)>)
    requires
        wf_entries(es),
    ensures
        map_of(es).dom().finite(),
        map_of(es).dom().len() == es.len(),
        forall|i: int|
            0 <= i < es.len() ==> map_of(es).contains_key((#[trigger] es[i]).0) && map_of(es)[
                es[i].0
            ] == es[i].1,
        forall|k: Seq<char>|
            #[trigger] map_of(es).contains_key(k) ==> 0 <= index_of_key(es, k) < es.len() && es[
                index_of_key(es, k)
            ].0 == k,
    decreases es.len(),
{
    broadcast use vstd::set::axiom_set_insert_len;

    if es.len() > 0 {
        let front = es.drop_last();
        let last = es.last();
        assert(front.len() == es.len() - 1);
        assert(forall|i: int| 0 <= i < front.len() ==> #[trigger] front[i] == es[i]);
        assert(wf_entries(front)) by {
            assert forall|i: int, j: int|
                0 <= i < j < front.len() implies (#[trigger] front[i]).0 != (
            #[trigger] front[j]).0 by {
                assert(front[i] == es[i] && front[j] == es[j]);
            }
        }
        lemma_map_of_props(front);
        if map_of(front).contains_key(last.0) {
            let idx = index_of_key(front, last.0);
            assert(0 <= idx < front.len() && front[idx].0 == last.0);
            assert(front[idx] == es[idx]);
            assert((es[idx]).0 == (es[es.len() - 1]).0);
            assert(false);
        }
        assert(!map_of(front).contains_key(last.0));
        assert forall|i: int|
            0 <= i < es.len() implies map_of(es).contains_key((#[trigger] es[i]).0) && map_of(es)[
            es[i].0] == es[i].1 by {
            if i < es.len() - 1 {
                assert(front[i] == es[i]);
                assert(map_of(front).contains_key(front[i].0));
                assert(es[i].0 != es[es.len() - 1].0);
            }
        }
        assert forall|k: Seq<char>| #[trigger] map_of(es).contains_key(k) implies 0
            <= index_of_key(es, k) < es.len() && es[index_of_key(es, k)].0 == k by {
            lemma_index_of_key_props(es, k);
            let iok = index_of_key(es, k);
            if k == last.0 {
                assert(es[es.len() - 1].0 == k);
                if iok == es.len() {
                    assert(es[es.len() - 1].0 != k);
                }
            } else {
                assert(map_of(front).contains_key(k));
                let idx = index_of_key(front, k);
                assert(0 <= idx < front.len() && front[idx].0 == k);
                assert(front[idx] == es[idx]);
                assert(es[idx].0 == k);
                if iok == es.len() {
                    assert(es[idx].0 != k);
                }
            }
        }
    }
}

/// A sequence with no whitespace at either edge is its own trim.
proof fn lemma_trim_id(s: Seq<char>)
    requires
        s.len() > 0 ==> !is_space(s[0]) && !is_space(s.last()),
    ensures
        trim(s) == s,
{
}

/// The characters of a well-formed entry rendered into header form: at
/// least the key, no comma anywhere, no whitespace at either edge.
proof fn lemma_enc_pair_chars(e: (Seq<char>, Seq<char>))
    requires
        wf_entry(e),
    ensures
        enc_pair(e).len() >= 1,
        forall|j: int| 0 <= j < enc_pair(e).len() ==> #[trigger] enc_pair(e)[j] != ',',
        !is_space(enc_pair(e)[0]),
        !is_space(enc_pair(e).last()),
{
    let s = enc_pair(e);
    if e.1.len() == 0 {
    } else {
        assert forall|j: int| 0 <= j < s.len() implies #[trigger] s[j] != ',' by {
            if j < e.0.len() {
                assert(s[j] == e.0[j]);
            } else if j == e.0.len() {
                assert(s[j] == ' ');
            } else {
                assert(s[j] == e.1[j - e.0.len() - 1]);
            }
        }
        assert(s[0] == e.0[0]);
        assert(s.last() == e.1.last());
    }
}

/// Rendering a well-formed entry and parsing it back yields the entry.
proof fn lemma_parse_pair_of_enc(e: (Seq<char>, Seq<char>))
    requires
        wf_entry(e),
    ensures
        parse_pair(enc_pair(e)) == Some(Some(e)),
{
    let s = enc_pair(e);
    lemma_enc_pair_chars(e);
    lemma_trim_id(s);
    let t = trim(s);
    assert(t == s);
    lemma_find_space_props(t, 0);
    let k = find_space(t, 0);
    if e.1.len() == 0 {
        assert(k == t.len()) by {
            if k < t.len() {
                assert(is_space(t[k]) && t[k] == e.0[k]);
            }
        }
        assert((t, Seq::<char>::empty()) == e) by {
            assert(e.1 =~= Seq::<char>::empty());
        }
    } else {
        let kl = e.0.len() as int;
        assert(t[kl] == ' ');
        assert(k == kl) by {
            if k < kl {
                assert(is_space(t[k]) && t[k] == e.0[k]);
            }
            if k > kl {
                assert(!is_space(t[kl]));
            }
        }
        let value = t.skip(k + 1);
        assert(value =~= e.1);
        lemma_find_space_props(value, 0);
        assert(find_space(value, 0) == value.len()) by {
            if find_space(value, 0) < value.len() {
                assert(is_space(value[find_space(value, 0)]));
                assert(value[find_space(value, 0)] == e.1[find_space(value, 0)]);
            }
        }
        assert(t.take(k) =~= e.0);
    }
}

/// The left unfolding of `encode_pairs`: the first entry, a comma, the rest.
proof fn lemma_encode_left(es: Seq<(Seq<char>, Seq<char>)>)
    requires
        es.len() >= 2,
    ensures
        encode_pairs(es) == enc_pair(es[0]) + seq![','] + encode_pairs(es.drop_first()),
    decreases es.len(),
{
    let front = es.drop_last();
    let last = es.last();
    if es.len() == 2 {
        assert(front.len() == 1 && front[0] == es[0]);
        assert(es.drop_first().len() == 1 && es.drop_first()[0] == es[1]);
        assert(encode_pairs(front) == enc_pair(es[0]));
        assert(encode_pairs(es.drop_first()) == enc_pair(es[1]));
        assert(last == es[1]);
        assert(encode_pairs(es) == encode_pairs(front) + seq![','] + enc_pair(last));
        assert(encode_pairs(es) =~= enc_pair(es[0]) + seq![','] + encode_pairs(es.drop_first()));
    } else {
        lemma_encode_left(front);
        assert(front[0] == es[0]);
        assert(es.drop_first().drop_last() =~= front.drop_first());
        assert(es.drop_first().last() == last);
        assert(encode_pairs(es.drop_first()) == encode_pairs(front.drop_first()) + seq![',']
            + enc_pair(last));
        assert(encode_pairs(es) =~= enc_pair(es[0]) + seq![','] + encode_pairs(es.drop_first()));
    }
}

/// Folding the segments of an encoded entry list onto an accumulator whose
/// keys are disjoint from the list's appends exactly the list.
proof fn lemma_parse_fold_encode(
    es: Seq<(Seq<char>, Seq<char>)>,
    s: Seq<char>,
    from: int,
    acc: Seq<(Seq<char>, Seq<char>)>,
)
    requires
        wf_entries(es),
        es.len() >= 1,
        0 <= from <= s.len(),
        s.skip(from) == encode_pairs(es),
        forall|i: int, j: int|
            0 <= i < acc.len() && 0 <= j < es.len() ==> (#[trigger] acc[i]).0 != (
            #[trigger] es[j]).0,
    ensures
        parse_fold(acc, segments(s, from)) == Some(acc + es),
    decreases es.len(),
{
    let e0 = es[0];
    lemma_enc_pair_chars(e0);
    lemma_parse_pair_of_enc(e0);
    lemma_find_comma_props(s, from);
    lemma_index_of_key_props(acc, e0.0);
    assert(upsert(acc, e0.0, e0.1) == acc.push(e0)) by {
        let idx = index_of_key(acc, e0.0);
        if idx < acc.len() {
            assert(acc[idx].0 == e0.0 && acc[idx].0 != es[0].0);
        }
        assert(upsert(acc, e0.0, e0.1) =~= acc.push(e0));
    }
    let ep = enc_pair(e0);
    let el = ep.len() as int;
    if es.len() == 1 {
        assert(s.skip(from) == ep);
        assert(find_comma(s, from) == s.len()) by {
            let i = find_comma(s, from);
            if i < s.len() {
                assert(s[i] == ',');
                assert(s[i] == s.skip(from)[i - from]);
                assert(ep[i - from] != ',');
            }
        }
        assert(segments(s, from) =~= seq![s.subrange(from, s.len() as int)]);
        assert(s.subrange(from, s.len() as int) =~= ep);
        assert(seq![ep].drop_first() =~= Seq::<Seq<char>>::empty());
        assert(seq![ep][0] == ep);
        assert(parse_fold(acc.push(e0), Seq::<Seq<char>>::empty()) == Some(acc.push(e0)));
        assert(acc.push(e0) =~= acc + es);
    } else {
        lemma_encode_left(es);
        let rest = es.drop_first();
        assert(wf_entries(rest)) by {
            assert(forall|i: int| 0 <= i < rest.len() ==> #[trigger] rest[i] == es[i + 1]);
        }
        assert(s.skip(from).len() == el + 1 + encode_pairs(rest).len());
        assert(from + el < s.len());
        assert(find_comma(s, from) == from + el) by {
            let i = find_comma(s, from);
            assert(s[from + el] == s.skip(from)[el]);
            assert(s.skip(from)[el] == ',');
            if i < from + el {
                assert(s[i] == ',');
                assert(s[i] == s.skip(from)[i - from]);
                assert(s.skip(from)[i - from] == ep[i - from]);
                assert(ep[i - from] != ',');
            }
            if i > from + el {
                assert(s[from + el] != ',');
            }
        }
        assert(segments(s, from) =~= seq![s.subrange(from, from + el)] + segments(
            s,
            from + el + 1,
        ));
        assert(s.subrange(from, from + el) =~= ep);
        assert(s.skip(from + el + 1) =~= encode_pairs(rest)) by {
            assert forall|j: int| 0 <= j < s.len() - from - el - 1 implies s.skip(from + el + 1)[j]
                == encode_pairs(rest)[j] by {
                assert(s.skip(from + el + 1)[j] == s.skip(from)[el + 1 + j]);
                assert(s.skip(from)[el + 1 + j] == encode_pairs(rest)[j]);
            }
        }
        lemma_parse_fold_encode(rest, s, from + el + 1, acc.push(e0));
        assert((seq![s.subrange(from, from + el)] + segments(s, from + el + 1))[0] == ep);
        assert((seq![s.subrange(from, from + el)] + segments(s, from + el + 1)).drop_first() =~= segments(
            s,
            from + el + 1,
        ));
        assert(parse_fold(acc, segments(s, from)) == parse_fold(
            acc.push(e0),
            segments(s, from + el + 1),
        ));
        assert(acc.push(e0) + rest =~= acc + es);
    }
}

/// The header round trip: a well-formed, non-empty mapping rendered into
/// header form parses back to exactly the same entries. Together with the
/// contracts of [`Metadata::to_header`] and [`Metadata::try_from`], parsing
/// a header, rendering the result, and parsing again yields an equal
/// mapping.
pub proof fn lemma_header_round_trip(m: Metadata)
    requires
        m.wf(),
        m.pairs().len() > 0,
    ensures
        parse_spec(encode_pairs(m.pairs())) == Some(m.pairs()),
{
    let es = m.pairs();
    let s = encode_pairs(es);
    lemma_enc_pair_chars(es[0]);
    if es.len() == 1 {
        assert(s.len() >= 1);
    } else {
        lemma_encode_left(es);
        assert(s.len() >= 1);
    }
    assert(s.skip(0) =~= s);
    lemma_parse_fold_encode(es, s, 0, Seq::empty());
    assert(Seq::<(Seq<char>, Seq<char>)>::empty() + es =~= es);
}

/// A pair parsed out of a comma-free segment is a well-formed entry.
pub proof fn lemma_parse_pair_wf(seg: Seq<char>)
    requires
        forall|j: int| 0 <= j < seg.len() ==> #[trigger] seg[j] != ',',
    ensures
        parse_pair(seg) matches Some(Some(kv)) ==> wf_entry(kv),
{
    lemma_trim_chars(seg);
    let t = trim(seg);
    if t.len() > 0 {
        lemma_find_space_props(t, 0);
        let k = find_space(t, 0);
        if k == t.len() {
        } else if t[k] == ' ' {
            let value = t.skip(k + 1);
            lemma_find_space_props(value, 0);
            assert(forall|j: int| 0 <= j < value.len() ==> value[j] == t[k + 1 + j]);
        }
    }
}

} // verus!
