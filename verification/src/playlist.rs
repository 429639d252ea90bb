//! Playlist ingestion: turning an M3U document into an ordered list of
//! channels.
//!
//! The grammar is the stateful two-line pattern: a metadata line starting
//! with `#EXTINF:` carrying quoted `tvg-name`, `tvg-logo` and `group-title`
//! attributes and a display name after the last comma, followed by a URL
//! line.  A URL line with no preceding metadata line is dropped; missing
//! fields receive fixed fallback values.
//!
//! The grammar works on bytes.  Line trimming removes ASCII whitespace
//! only — a deliberate narrowing against trimming of the full Unicode
//! whitespace set: a line padded with, say, a non-breaking space keeps
//! that padding as part of its text.

use vstd::prelude::*;
use vstd::string::StringExecFns;

verus! {

/// ASCII whitespace, the whole of what line trimming removes (Unicode
/// whitespace beyond ASCII is kept — see the module note).
pub open spec fn is_space(b: u8) -> bool {
    b == 32 || b == 9 || b == 10 || b == 13 || b == 11 || b == 12
}

pub open spec fn trim_start_spec(s: Seq<u8>) -> Seq<u8>
    decreases s.len(),
{
    if s.len() > 0 && is_space(s[0]) {
        trim_start_spec(s.drop_first())
    } else {
        s
    }
}

pub open spec fn trim_end_spec(s: Seq<u8>) -> Seq<u8>
    decreases s.len(),
{
    if s.len() > 0 && is_space(s.last()) {
        trim_end_spec(s.drop_last())
    } else {
        s
    }
}

/// A line with its leading and trailing whitespace removed.
pub open spec fn trim_spec(s: Seq<u8>) -> Seq<u8> {
    trim_end_spec(trim_start_spec(s))
}

/// Position of the first `c` at or after `i`, or the length when there is
/// none.
pub open spec fn find_byte_from(s: Seq<u8>, c: u8, i: int) -> int
    decreases s.len() - i, when 0 <= i
{
    if i >= s.len() {
        s.len() as int
    } else if s[i] == c {
        i
    } else {
        find_byte_from(s, c, i + 1)
    }
}

/// What `find_byte_from` returns: the first hit, within bounds.
pub proof fn lemma_find_byte_props(s: Seq<u8>, c: u8, i: int)
    requires
        0 <= i <= s.len(),
    ensures
        i <= find_byte_from(s, c, i) <= s.len(),
        find_byte_from(s, c, i) < s.len() ==> s[find_byte_from(s, c, i)] == c,
        forall|k: int| i <= k < find_byte_from(s, c, i) ==> s[k] != c,
    decreases s.len() - i,
{
    if i < s.len() && s[i] != c {
        lemma_find_byte_props(s, c, i + 1);
    }
}

/// A scan that saw no `c` before `j` and one at `j` (or ran out) found the
/// first hit.
pub proof fn lemma_find_byte_at(s: Seq<u8>, c: u8, i: int, j: int)
    requires
        0 <= i <= j <= s.len(),
        forall|k: int| i <= k < j ==> s[k] != c,
        j == s.len() || s[j] == c,
    ensures
        find_byte_from(s, c, i) == j,
    decreases j - i,
{
    if i < j {
        lemma_find_byte_at(s, c, i + 1, j);
    }
}

/// The document, split at newlines (the final piece may be empty).
pub open spec fn spec_split_lines(s: Seq<u8>) -> Seq<Seq<u8>>
    decreases s.len(),
{
    let j = find_byte_from(s, 10, 0);
    if 0 <= j < s.len() {
        seq![s.subrange(0, j)] + spec_split_lines(s.subrange(j + 1, s.len() as int))
    } else {
        seq![s]
    }
}

/// The `#EXTINF:` marker of a metadata line.
pub open spec fn key_extinf() -> Seq<u8> {
    seq![35u8, 69u8, 88u8, 84u8, 73u8, 78u8, 70u8, 58u8]
}

/// Opening of a quoted `tvg-name` attribute.
pub open spec fn key_tvg_name() -> Seq<u8> {
    seq![116u8, 118u8, 103u8, 45u8, 110u8, 97u8, 109u8, 101u8, 61u8, 34u8]
}

/// Opening of a quoted `tvg-logo` attribute.
pub open spec fn key_tvg_logo() -> Seq<u8> {
    seq![116u8, 118u8, 103u8, 45u8, 108u8, 111u8, 103u8, 111u8, 61u8, 34u8]
}

/// Opening of a quoted `group-title` attribute.
pub open spec fn key_group_title() -> Seq<u8> {
    seq![103u8, 114u8, 111u8, 117u8, 112u8, 45u8, 116u8, 105u8, 116u8, 108u8, 101u8, 61u8, 34u8]
}

/// Group label used when a metadata line carries none.
pub open spec fn default_group() -> Seq<u8> {
    seq![68u8, 105u8, 103u8, 101u8, 114u8]
}

/// Channel name used when both the display name and `tvg-name` are empty.
pub open spec fn default_name() -> Seq<u8> {
    seq![66u8, 105u8, 108u8, 105u8, 110u8, 109u8, 101u8, 121u8, 101u8, 110u8]
}

pub open spec fn spec_starts_with(s: Seq<u8>, p: Seq<u8>) -> bool {
    s.len() >= p.len() && s.subrange(0, p.len() as int) == p
}

/// A quoted attribute occurrence at `i`: the key (with its opening quote)
/// matches and a closing quote follows somewhere after it.
pub open spec fn key_match_at(s: Seq<u8>, key: Seq<u8>, i: int) -> bool {
    &&& 0 <= i
    &&& i + key.len() <= s.len()
    &&& s.subrange(i, i + key.len()) == key
    &&& exists|j: int| i + key.len() <= j < s.len() && s[j] == 34u8
}

/// Position of the first attribute occurrence at or after `i`, or the
/// length when there is none.
pub open spec fn find_key_from(s: Seq<u8>, key: Seq<u8>, i: int) -> int
    decreases s.len() - i, when 0 <= i && key.len() >= 1
{
    if i + key.len() > s.len() {
        s.len() as int
    } else if key_match_at(s, key, i) {
        i
    } else {
        find_key_from(s, key, i + 1)
    }
}

/// A scan that saw no occurrence before `j` and one at `j` (or ran out of
/// room) found the first occurrence.
pub proof fn lemma_find_key_at(s: Seq<u8>, key: Seq<u8>, i: int, j: int)
    requires
        0 <= i <= j,
        key.len() >= 1,
        forall|k: int| i <= k < j ==> !key_match_at(s, key, k),
        j + key.len() > s.len() || key_match_at(s, key, j),
    ensures
        find_key_from(s, key, i) == if j + key.len() > s.len() {
            s.len() as int
        } else {
            j
        },
    decreases j - i,
{
    if i < j {
        assert(i + key.len() <= j + key.len());
        lemma_find_key_at(s, key, i + 1, j);
    }
}

/// Value of the first quoted attribute `key` in the line: the bytes
/// between the key's opening quote and the next quote.  `None` when the
/// key never occurs with a closing quote after it.
pub open spec fn spec_attr_value(s: Seq<u8>, key: Seq<u8>) -> Option<Seq<u8>> {
    let i = find_key_from(s, key, 0);
    if i < s.len() {
        Some(s.subrange(i + key.len(), find_byte_from(s, 34u8, i + key.len())))
    } else {
        None
    }
}

/// Index of the last comma in the line, or -1 when there is none.
pub open spec fn spec_last_comma(s: Seq<u8>) -> int
    decreases s.len(),
{
    if s.len() == 0 {
        -1
    } else if s[s.len() - 1] == 44u8 {
        s.len() - 1
    } else {
        spec_last_comma(s.drop_last())
    }
}

pub proof fn lemma_last_comma_at(s: Seq<u8>, j: int)
    requires
        0 <= j < s.len(),
        s[j] == 44u8,
        forall|k: int| j < k < s.len() ==> s[k] != 44u8,
    ensures
        spec_last_comma(s) == j,
    decreases s.len(),
{
    if s.len() - 1 > j {
        assert(s.drop_last() =~= s.subrange(0, s.len() - 1));
        lemma_last_comma_at(s.drop_last(), j);
    }
}

pub proof fn lemma_last_comma_none(s: Seq<u8>)
    requires
        forall|k: int| 0 <= k < s.len() ==> s[k] != 44u8,
    ensures
        spec_last_comma(s) == -1,
    decreases s.len(),
{
    if s.len() > 0 {
        lemma_last_comma_none(s.drop_last());
    }
}

/// Metadata carried by one `#EXTINF:` line: chosen name, logo, group.
/// The name is the trimmed text after the last comma, falling back to the
/// `tvg-name` attribute when that text is empty or no comma exists.
pub open spec fn spec_meta_of(line: Seq<u8>) -> (Seq<u8>, Seq<u8>, Seq<u8>) {
    let name = match spec_attr_value(line, key_tvg_name()) {
        Some(v) => v,
        None => Seq::<u8>::empty(),
    };
    let logo = match spec_attr_value(line, key_tvg_logo()) {
        Some(v) => v,
        None => Seq::<u8>::empty(),
    };
    let group = match spec_attr_value(line, key_group_title()) {
        Some(v) => v,
        None => default_group(),
    };
    let lc = spec_last_comma(line);
    let display = if lc >= 0 {
        trim_spec(line.subrange(lc + 1, line.len() as int))
    } else {
        name
    };
    let chosen = if display.len() == 0 {
        name
    } else {
        display
    };
    (chosen, logo, group)
}

/// One parsed channel.
pub struct ChannelModel {
    pub id: nat,
    pub name: Seq<u8>,
    pub logo: Seq<u8>,
    pub group: Seq<u8>,
    pub url: Seq<u8>,
}

/// The channel built from pending metadata `m` and a URL line, with the
/// placeholder name where the metadata gave none.
pub open spec fn spec_channel(id: nat, m: (Seq<u8>, Seq<u8>, Seq<u8>), url: Seq<u8>) -> ChannelModel {
    ChannelModel {
        id: id,
        name: if m.0.len() == 0 {
            default_name()
        } else {
            m.0
        },
        logo: m.1,
        group: m.2,
        url: url,
    }
}

/// The two-line fold over the document's lines: a metadata line replaces
/// the pending metadata; a non-comment, non-empty line consumes it into a
/// channel (or is dropped when none is pending); anything else is ignored.
pub open spec fn spec_parse_lines(
    lines: Seq<Seq<u8>>,
    pending: Option<(Seq<u8>, Seq<u8>, Seq<u8>)>,
    acc: Seq<ChannelModel>,
) -> Seq<ChannelModel>
    decreases lines.len(),
{
    if lines.len() == 0 {
        acc
    } else {
        let l = trim_spec(lines[0]);
        let rest = lines.drop_first();
        if spec_starts_with(l, key_extinf()) {
            spec_parse_lines(rest, Some(spec_meta_of(l)), acc)
        } else if l.len() > 0 && l[0] != 35u8 {
            match pending {
                Some(m) => spec_parse_lines(
                    rest,
                    None,
                    acc.push(spec_channel(acc.len() as nat, m, l)),
                ),
                None => spec_parse_lines(rest, None, acc),
            }
        } else {
            spec_parse_lines(rest, pending, acc)
        }
    }
}

/// All channels of the document, in order, with their positions as ids.
pub open spec fn spec_parse_m3u(content: Seq<u8>) -> Seq<ChannelModel> {
    spec_parse_lines(spec_split_lines(content), None, Seq::<ChannelModel>::empty())
}

/// One playlist entry: display name, logo reference, group label and
/// playback URL, all as the document's bytes.
pub struct Channel {
    pub id: usize,
    pub name: Vec<u8>,
    pub logo: Vec<u8>,
    pub group: Vec<u8>,
    pub url: Vec<u8>,
}

impl View for Channel {
    type V = ChannelModel;

    open spec fn view(&self) -> ChannelModel {
        ChannelModel {
            id: self.id as nat,
            name: self.name@,
            logo: self.logo@,
            group: self.group@,
            url: self.url@,
        }
    }
}

impl DeepView for Channel {
    type V = ChannelModel;

    open spec fn deep_view(&self) -> ChannelModel {
        self.view()
    }
}

fn is_space_exec(b: u8) -> (r: bool)
    ensures
        r == is_space(b),
{
    b == 32 || b == 9 || b == 10 || b == 13 || b == 11 || b == 12
}

/// Copy of `s[a..b]`.
fn copy_range(s: &[u8], a: usize, b: usize) -> (r: Vec<u8>)
    requires
        a <= b <= s@.len(),
    ensures
        r@ == s@.subrange(a as int, b as int),
{
    let mut r: Vec<u8> = Vec::new();
    let mut i: usize = a;
    while i < b
        invariant
            a <= i <= b <= s@.len(),
            r@ == s@.subrange(a as int, i as int),
        decreases b - i,
    {
        r.push(s[i]);
        proof {
            assert(r@ =~= s@.subrange(a as int, i + 1));
        }
        i = i + 1;
    }
    r
}

proof fn lemma_trim_start_at(s: Seq<u8>, a: int)
    requires
        0 <= a <= s.len(),
        forall|k: int| 0 <= k < a ==> is_space(s[k]),
        a == s.len() || !is_space(s[a]),
    ensures
        trim_start_spec(s) == s.subrange(a, s.len() as int),
    decreases a,
{
    if a == 0 {
        assert(s.subrange(0, s.len() as int) =~= s);
    } else {
        assert(is_space(s[0]));
        assert(s.drop_first() =~= s.subrange(1, s.len() as int));
        lemma_trim_start_at(s.drop_first(), a - 1);
        assert(s.drop_first().subrange(a - 1, s.drop_first().len() as int) =~= s.subrange(
            a,
            s.len() as int,
        ));
    }
}

proof fn lemma_trim_end_at(s: Seq<u8>, b: int)
    requires
        0 <= b <= s.len(),
        forall|k: int| b <= k < s.len() ==> is_space(s[k]),
        b == 0 || !is_space(s[b - 1]),
    ensures
        trim_end_spec(s) == s.subrange(0, b),
    decreases s.len(),
{
    if b == s.len() {
        assert(s.subrange(0, s.len() as int) =~= s);
    } else {
        assert(is_space(s.last()));
        lemma_trim_end_at(s.drop_last(), b);
        assert(s.drop_last().subrange(0, b) =~= s.subrange(0, b));
    }
}

/// Bounds of the trimmed part of the line.
fn trim_bounds(s: &[u8]) -> (r: (usize, usize))
    ensures
        r.0 <= r.1 <= s@.len(),
        trim_spec(s@) == s@.subrange(r.0 as int, r.1 as int),
{
    let mut a: usize = 0;
    while a < s.len() && is_space_exec(s[a])
        invariant
            a <= s@.len(),
            forall|k: int| 0 <= k < a ==> is_space(s@[k]),
        decreases s@.len() - a,
    {
        a = a + 1;
    }
    let mut b: usize = s.len();
    while b > a && is_space_exec(s[b - 1])
        invariant
            a <= b <= s@.len(),
            forall|k: int| b <= k < s@.len() ==> is_space(s@[k]),
        decreases b,
    {
        b = b - 1;
    }
    proof {
        lemma_trim_start_at(s@, a as int);
        let sub = s@.subrange(a as int, s@.len() as int);
        if b == a {
            lemma_trim_end_at(sub, 0);
        } else {
            assert(!is_space(sub[b - a - 1]));
            lemma_trim_end_at(sub, b - a);
        }
        assert(sub.subrange(0, b - a) =~= s@.subrange(a as int, b as int));
    }
    (a, b)
}

/// Whether the line starts with the given marker.
fn has_prefix(s: &[u8], p: &[u8]) -> (r: bool)
    ensures
        r == spec_starts_with(s@, p@),
{
    if p.len() > s.len() {
        return false;
    }
    let mut i: usize = 0;
    while i < p.len()
        invariant
            i <= p@.len() <= s@.len(),
            forall|k: int| 0 <= k < i ==> s@[k] == p@[k],
        decreases p@.len() - i,
    {
        if s[i] != p[i] {
            proof {
                assert(s@.subrange(0, p@.len() as int)[i as int] != p@[i as int]);
            }
            return false;
        }
        i = i + 1;
    }
    proof {
        assert(s@.subrange(0, p@.len() as int) =~= p@);
    }
    true
}

/// First `c` at or after `from`.
fn find_byte(s: &[u8], c: u8, from: usize) -> (r: usize)
    requires
        from <= s@.len(),
    ensures
        r as int == find_byte_from(s@, c, from as int),
{
    let mut j: usize = from;
    while j < s.len() && s[j] != c
        invariant
            from <= j <= s@.len(),
            forall|k: int| from <= k < j ==> s@[k] != c,
        decreases s@.len() - j,
    {
        j = j + 1;
    }
    proof {
        lemma_find_byte_at(s@, c, from as int, j as int);
    }
    j
}

/// Whether the key occurs (with its closing quote) at position `i`.
fn key_matches_here(s: &[u8], key: &[u8], i: usize) -> (r: bool)
    requires
        i + key@.len() <= s@.len(),
    ensures
        r == key_match_at(s@, key@, i as int),
{
    let n = s.len();
    let mut k: usize = 0;
    while k < key.len()
        invariant
            k <= key@.len(),
            i + key@.len() <= s@.len(),
            n == s@.len(),
            forall|t: int| 0 <= t < k ==> s@[i + t] == key@[t],
        decreases key@.len() - k,
    {
        if s[i + k] != key[k] {
            proof {
                assert(s@.subrange(i as int, i + key@.len())[k as int] != key@[k as int]);
            }
            return false;
        }
        k = k + 1;
    }
    let q = find_byte(s, 34u8, i + key.len());
    proof {
        assert(s@.subrange(i as int, i + key@.len()) =~= key@);
        lemma_find_byte_props(s@, 34u8, i + key@.len());
    }
    q < s.len()
}

/// Value of the first quoted attribute `key` in the line.
fn attr_value(s: &[u8], key: &[u8]) -> (r: Option<Vec<u8>>)
    requires
        key@.len() >= 1,
    ensures
        match r {
            Some(v) => spec_attr_value(s@, key@) == Some(v@),
            None => spec_attr_value(s@, key@) is None,
        },
{
    let n = s.len();
    if key.len() > n {
        proof {
            lemma_find_key_at(s@, key@, 0, 0);
        }
        return None;
    }
    let mut i: usize = 0;
    while i <= n - key.len()
        invariant
            key@.len() >= 1,
            key@.len() <= s@.len(),
            n == s@.len(),
            i <= s@.len() - key@.len() + 1,
            forall|k: int| 0 <= k < i ==> !key_match_at(s@, key@, k),
        decreases s@.len() - i,
    {
        if key_matches_here(s, key, i) {
            proof {
                lemma_find_key_at(s@, key@, 0, i as int);
            }
            let q = find_byte(s, 34u8, i + key.len());
            proof {
                lemma_find_byte_props(s@, 34u8, i + key@.len());
                assert(q < s@.len()) by {
                    let j = choose|j: int|
                        i + key@.len() <= j < s@.len() && s@[j] == 34u8;
                    assert(s@[j] == 34u8);
                }
            }
            let v = copy_range(s, i + key.len(), q);
            return Some(v);
        }
        i = i + 1;
    }
    proof {
        lemma_find_key_at(s@, key@, 0, i as int);
    }
    None
}

/// Index just after the last comma, or 0 when there is none; paired with
/// whether a comma exists.
fn last_comma(s: &[u8]) -> (r: Option<usize>)
    ensures
        match r {
            Some(j) => spec_last_comma(s@) == j as int && j < s@.len(),
            None => spec_last_comma(s@) == -1,
        },
{
    let mut k: usize = s.len();
    while k > 0 && s[k - 1] != 44u8
        invariant
            k <= s@.len(),
            forall|t: int| k <= t < s@.len() ==> s@[t] != 44u8,
        decreases k,
    {
        k = k - 1;
    }
    if k == 0 {
        proof {
            lemma_last_comma_none(s@);
        }
        None
    } else {
        proof {
            lemma_last_comma_at(s@, k - 1);
        }
        Some(k - 1)
    }
}

fn extinf_key() -> (r: Vec<u8>)
    ensures
        r@ == key_extinf(),
{
    let mut v: Vec<u8> = Vec::new();
    v.push(35u8);
    v.push(69u8);
    v.push(88u8);
    v.push(84u8);
    v.push(73u8);
    v.push(78u8);
    v.push(70u8);
    v.push(58u8);
    proof {
        assert(v@ =~= key_extinf());
    }
    v
}

fn tvg_name_key() -> (r: Vec<u8>)
    ensures
        r@ == key_tvg_name(),
{
    let mut v: Vec<u8> = Vec::new();
    v.push(116u8);
    v.push(118u8);
    v.push(103u8);
    v.push(45u8);
    v.push(110u8);
    v.push(97u8);
    v.push(109u8);
    v.push(101u8);
    v.push(61u8);
    v.push(34u8);
    proof {
        assert(v@ =~= key_tvg_name());
    }
    v
}

fn tvg_logo_key() -> (r: Vec<u8>)
    ensures
        r@ == key_tvg_logo(),
{
    let mut v: Vec<u8> = Vec::new();
    v.push(116u8);
    v.push(118u8);
    v.push(103u8);
    v.push(45u8);
    v.push(108u8);
    v.push(111u8);
    v.push(103u8);
    v.push(111u8);
    v.push(61u8);
    v.push(34u8);
    proof {
        assert(v@ =~= key_tvg_logo());
    }
    v
}

fn group_title_key() -> (r: Vec<u8>)
    ensures
        r@ == key_group_title(),
{
    let mut v: Vec<u8> = Vec::new();
    v.push(103u8);
    v.push(114u8);
    v.push(111u8);
    v.push(117u8);
    v.push(112u8);
    v.push(45u8);
    v.push(116u8);
    v.push(105u8);
    v.push(116u8);
    v.push(108u8);
    v.push(101u8);
    v.push(61u8);
    v.push(34u8);
    proof {
        assert(v@ =~= key_group_title());
    }
    v
}

fn default_group_vec() -> (r: Vec<u8>)
    ensures
        r@ == default_group(),
{
    let mut v: Vec<u8> = Vec::new();
    v.push(68u8);
    v.push(105u8);
    v.push(103u8);
    v.push(101u8);
    v.push(114u8);
    proof {
        assert(v@ =~= default_group());
    }
    v
}

fn default_name_vec() -> (r: Vec<u8>)
    ensures
        r@ == default_name(),
{
    let mut v: Vec<u8> = Vec::new();
    v.push(66u8);
    v.push(105u8);
    v.push(108u8);
    v.push(105u8);
    v.push(110u8);
    v.push(109u8);
    v.push(101u8);
    v.push(121u8);
    v.push(101u8);
    v.push(110u8);
    proof {
        assert(v@ =~= default_name());
    }
    v
}

/// Metadata of one trimmed `#EXTINF:` line.
fn meta_of(line: &[u8]) -> (r: (Vec<u8>, Vec<u8>, Vec<u8>))
    ensures
        (r.0@, r.1@, r.2@) == spec_meta_of(line@),
{
    let nk = tvg_name_key();
    let lk = tvg_logo_key();
    let gk = group_title_key();
    let name = match attr_value(line, nk.as_slice()) {
        Some(v) => v,
        None => Vec::new(),
    };
    let logo = match attr_value(line, lk.as_slice()) {
        Some(v) => v,
        None => Vec::new(),
    };
    let group = match attr_value(line, gk.as_slice()) {
        Some(v) => v,
        None => default_group_vec(),
    };
    let display: Vec<u8> = match last_comma(line) {
        Some(j) => {
            let n = line.len();
            let tail = copy_range(line, j + 1, n);
            let (a, b) = trim_bounds(tail.as_slice());
            proof {
                assert(tail@.subrange(a as int, b as int) =~= line@.subrange(
                    j + 1 + a,
                    j + 1 + b,
                ));
            }
            copy_range(tail.as_slice(), a, b)
        },
        None => {
            let mut c: Vec<u8> = Vec::new();
            c.extend_from_slice(name.as_slice());
            c
        },
    };
    let chosen = if display.len() == 0 {
        name
    } else {
        display
    };
    (chosen, logo, group)
}

/// The document split at newlines.
fn split_lines(content: &[u8]) -> (lines: Vec<Vec<u8>>)
    ensures
        lines.deep_view() == spec_split_lines(content@),
{
    let mut lines: Vec<Vec<u8>> = Vec::new();
    let mut pos: usize = 0;
    let mut done = false;
    proof {
        assert(content@.subrange(0, content@.len() as int) =~= content@);
        assert(lines.deep_view() =~= Seq::<Seq<u8>>::empty());
        assert(Seq::<Seq<u8>>::empty() + spec_split_lines(content@) =~= spec_split_lines(
            content@,
        ));
    }
    while !done
        invariant
            !done ==> pos <= content@.len(),
            !done ==> spec_split_lines(content@) =~= lines.deep_view() + spec_split_lines(
                content@.subrange(pos as int, content@.len() as int),
            ),
            done ==> lines.deep_view() =~= spec_split_lines(content@),
        decreases content@.len() - pos + 1, (if done { 0int } else { 1int }),
    {
        let j = find_byte(content, 10, pos);
        proof {
            lemma_find_byte_props(content@, 10, pos as int);
        }
        let line = copy_range(content, pos, j);
        proof {
            let clen = content@.len() as int;
            let sub = content@.subrange(pos as int, clen);
            assert(forall|k: int| 0 <= k < j - pos ==> sub[k] == content@[pos + k]);
            if (j as int) < clen {
                lemma_find_byte_at(sub, 10, 0, j - pos);
                assert(sub.subrange(0, j - pos) =~= content@.subrange(pos as int, j as int));
                assert(sub.subrange(j - pos + 1, sub.len() as int) =~= content@.subrange(
                    j + 1,
                    clen,
                ));
                assert(spec_split_lines(sub) == seq![line@] + spec_split_lines(
                    content@.subrange(j + 1, clen),
                ));
            } else {
                lemma_find_byte_at(sub, 10, 0, sub.len() as int);
                assert(spec_split_lines(sub) == seq![sub]);
                assert(line@ =~= sub);
            }
        }
        let ghost old_lines = lines.deep_view();
        let ghost lv = line@;
        lines.push(line);
        proof {
            assert(lines.deep_view() =~~= old_lines.push(lv));
            assert(old_lines.push(lv) =~= old_lines + seq![lv]);
        }
        if j == content.len() {
            done = true;
        } else {
            pos = j + 1;
        }
    }
    lines
}

/// View of the pending metadata.
pub open spec fn pending_view(p: &Option<(Vec<u8>, Vec<u8>, Vec<u8>)>) -> Option<
    (Seq<u8>, Seq<u8>, Seq<u8>),
> {
    match p {
        Some(m) => Some((m.0@, m.1@, m.2@)),
        None => None,
    }
}

/// Parse an M3U document into its channels, in order of appearance.
pub fn parse_m3u(content: &[u8]) -> (r: Vec<Channel>)
    ensures
        r.deep_view() == spec_parse_m3u(content@),
{
    let lines = split_lines(content);
    let ek = extinf_key();
    let mut channels: Vec<Channel> = Vec::new();
    let mut pending: Option<(Vec<u8>, Vec<u8>, Vec<u8>)> = None;
    let mut k: usize = 0;
    proof {
        assert(lines.deep_view().skip(0) =~= lines.deep_view());
        assert(channels.deep_view() =~= Seq::<ChannelModel>::empty());
    }
    while k < lines.len()
        invariant
            k <= lines@.len(),
            lines.deep_view().len() == lines@.len(),
            ek@ == key_extinf(),
            spec_parse_m3u(content@) == spec_parse_lines(
                lines.deep_view().skip(k as int),
                pending_view(&pending),
                channels.deep_view(),
            ),
            channels@.len() == channels.deep_view().len(),
        decreases lines@.len() - k,
    {
        let ghost pre_lines = lines.deep_view().skip(k as int);
        let ghost pre_pending = pending_view(&pending);
        let ghost pre_acc = channels.deep_view();
        proof {
            assert(pre_lines[0] == lines.deep_view()[k as int]);
            assert(pre_lines.drop_first() =~= lines.deep_view().skip(k + 1));
        }
        let line = &lines[k];
        proof {
            assert(lines.deep_view()[k as int] == lines@[k as int].deep_view());
            assert(lines@[k as int].deep_view() =~= line@);
        }
        let (a, b) = trim_bounds(line.as_slice());
        let t = copy_range(line.as_slice(), a, b);
        proof {
            assert(t@ == trim_spec(pre_lines[0]));
        }
        if has_prefix(t.as_slice(), ek.as_slice()) {
            pending = Some(meta_of(t.as_slice()));
        } else if t.len() > 0 && t[0] != 35u8 {
            let p = pending;
            pending = None;
            match p {
                Some(m) => {
                    let ghost mv = (m.0@, m.1@, m.2@);
                    let name = if m.0.len() == 0 {
                        default_name_vec()
                    } else {
                        m.0
                    };
                    let c = Channel {
                        id: channels.len(),
                        name,
                        logo: m.1,
                        group: m.2,
                        url: t,
                    };
                    let ghost cv = c@;
                    channels.push(c);
                    proof {
                        assert(cv == spec_channel(pre_acc.len() as nat, mv, trim_spec(
                            pre_lines[0],
                        )));
                        assert(channels.deep_view() =~= pre_acc.push(cv));
                    }
                },
                None => {},
            }
        }
        k = k + 1;
    }
    proof {
        assert(lines.deep_view().skip(k as int) =~= Seq::<Seq<u8>>::empty());
    }
    channels
}

/// Decision core of playlist ingestion, once the document's text is in
/// hand: an empty response and a document without channels are rejected
/// with their messages; anything else parses.
pub fn channels_from_text(content: &[u8]) -> (r: Result<Vec<Channel>, String>)
    ensures
        content@.len() == 0 ==> (r matches Err(e) && e@ == "Empty response received"@),
        content@.len() > 0 && spec_parse_m3u(content@).len() == 0 ==> (r matches Err(e) && e@
            == "No channels found in M3U file"@),
        content@.len() > 0 && spec_parse_m3u(content@).len() > 0 ==> (r matches Ok(v)
            && v.deep_view() == spec_parse_m3u(content@)),
{
    if content.len() == 0 {
        return Err(String::from_str("Empty response received"));
    }
    let channels = parse_m3u(content);
    if channels.len() == 0 {
        return Err(String::from_str("No channels found in M3U file"));
    }
    Ok(channels)
}

} // verus!
