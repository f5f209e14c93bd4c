//! Syntactic validation of a URL or bare host name, with an optional
//! whitelist of top-level domains.

use vstd::prelude::*;
use crate::text::{is_alpha, is_alnum, char_is_alpha, char_is_alnum, chars_of};

verus! {

/// A character of a host label: an ASCII letter or digit, a dot or a hyphen.
pub open spec fn is_host_char(c: char) -> bool {
    is_alnum(c) || c == '.' || c == '-'
}

/// A character inside a top-level domain: an ASCII letter or a dot.
pub open spec fn is_tld_char(c: char) -> bool {
    is_alpha(c) || c == '.'
}

/// A scheme with its separator: one or more ASCII letters or digits, then `://`.
pub open spec fn is_scheme(s: Seq<char>) -> bool {
    &&& s.len() >= 4
    &&& forall|i: int| 0 <= i < s.len() - 3 ==> is_alnum(#[trigger] s[i])
    &&& s[s.len() - 3] == ':'
    &&& s[s.len() - 2] == '/'
    &&& s[s.len() - 1] == '/'
}

/// A host label: one or more host characters.
pub open spec fn is_host(s: Seq<char>) -> bool {
    &&& s.len() >= 1
    &&& forall|i: int| 0 <= i < s.len() ==> is_host_char(#[trigger] s[i])
}

/// The generic shape of a top-level domain: a dot, then one or more letters
/// or dots, then a letter. At least three characters in all.
pub open spec fn is_top_level_domain(s: Seq<char>) -> bool {
    &&& s.len() >= 3
    &&& s[0] == '.'
    &&& forall|i: int| 1 <= i < s.len() - 1 ==> is_tld_char(#[trigger] s[i])
    &&& is_alpha(s[s.len() - 1])
}

/// What may follow the top-level domain: nothing, or a `/` or `#` and then
/// any characters at all.
pub open spec fn is_trailer(s: Seq<char>) -> bool {
    s.len() == 0 || s[0] == '/' || s[0] == '#'
}

/// Whether `t` is accepted as the top-level domain: by its shape when there
/// is no whitelist, else by being, character for character, one of the
/// whitelist's entries.
pub open spec fn tld_accepted(t: Seq<char>, whitelist: Option<Seq<Seq<char>>>) -> bool {
    match whitelist {
        None => is_top_level_domain(t),
        Some(entries) => entries.contains(t),
    }
}

/// `s` splits at `h`, `t` and `e` into an optional scheme, a host label, a
/// top-level domain and a trailer.
pub open spec fn splits_as_url(
    s: Seq<char>,
    whitelist: Option<Seq<Seq<char>>>,
    h: int,
    t: int,
    e: int,
) -> bool {
    &&& 0 <= h < t < e <= s.len()
    &&& (h == 0 || is_scheme(s.subrange(0, h)))
    &&& is_host(s.subrange(h, t))
    &&& tld_accepted(s.subrange(t, e), whitelist)
    &&& is_trailer(s.subrange(e, s.len() as int))
}

/// The whole of `s` is a URL: some split of it fits the grammar.
pub open spec fn is_url(s: Seq<char>, whitelist: Option<Seq<Seq<char>>>) -> bool {
    exists|h: int, t: int, e: int| splits_as_url(s, whitelist, h, t, e)
}

/// Why a whitelist cannot be used.
#[derive(Clone, Copy, Debug, PartialEq, Eq, Structural)]
pub enum UrlError {
    /// The whitelist has no entry.
    EmptyWhitelist,
    /// An entry of the whitelist does not have the shape of a top-level domain.
    InvalidWhitelistEntry,
}

/// Every entry has the generic shape of a top-level domain.
pub open spec fn all_entries_shaped(entries: Seq<Seq<char>>) -> bool {
    forall|i: int| 0 <= i < entries.len() ==> is_top_level_domain(#[trigger] entries[i])
}

/// The answer owed for `url` under `whitelist`. The whitelist is judged
/// first, whatever `url` holds; only a usable one lets the URL be matched.
pub open spec fn url_verdict(url: Seq<char>, whitelist: Option<Seq<Seq<char>>>) -> Result<
    bool,
    UrlError,
> {
    match whitelist {
        None => Ok(is_url(url, whitelist)),
        Some(entries) => if entries.len() == 0 {
            Err(UrlError::EmptyWhitelist)
        } else if !all_entries_shaped(entries) {
            Err(UrlError::InvalidWhitelistEntry)
        } else {
            Ok(is_url(url, whitelist))
        },
    }
}

/// The entries of a whitelist as sequences of characters.
pub open spec fn entry_texts(list: Seq<&str>) -> Seq<Seq<char>> {
    Seq::new(list.len(), |i: int| list[i]@)
}

/// The whitelist that a caller handed in, as a plain value.
pub open spec fn whitelist_texts(whitelist: Option<&Vec<&str>>) -> Option<Seq<Seq<char>>> {
    match whitelist {
        None => None,
        Some(list) => Some(entry_texts(list@)),
    }
}

spec fn rows(entries: Seq<Vec<char>>) -> Seq<Seq<char>> {
    Seq::new(entries.len(), |i: int| entries[i]@)
}

spec fn rows_of(entries: Option<Vec<Vec<char>>>) -> Option<Seq<Seq<char>>> {
    match entries {
        None => None,
        Some(list) => Some(rows(list@)),
    }
}

fn char_is_host(c: char) -> (r: bool)
    ensures
        r == is_host_char(c),
{
    char_is_alnum(c) || c == '.' || c == '-'
}

fn char_is_tld(c: char) -> (r: bool)
    ensures
        r == is_tld_char(c),
{
    char_is_alpha(c) || c == '.'
}

/// Where the host starts: behind the scheme if `s` opens with one, else at 0.
/// No other prefix of `s` is a scheme.
fn scheme_end(s: &Vec<char>) -> (h: usize)
    ensures
        h <= s.len(),
        h == 0 || is_scheme(s@.subrange(0, h as int)),
        forall|k: int| 0 < k <= s.len() && is_scheme(#[trigger] s@.subrange(0, k)) ==> k == h,
{
    let mut a: usize = 0;
    while a < s.len() && char_is_alnum(s[a])
        invariant
            a <= s.len(),
            forall|i: int| 0 <= i < a ==> is_alnum(#[trigger] s@[i]),
        decreases s.len() - a,
    {
        a += 1;
    }
    let found = a >= 1 && s.len() - a >= 3 && s[a] == ':' && s[a + 1] == '/' && s[a + 2] == '/';
    assert forall|k: int| 0 < k <= s.len() && is_scheme(#[trigger] s@.subrange(0, k)) implies found
        && k == a + 3 by {
        // The run of letters and digits ends at the colon of the scheme.
        let p = s@.subrange(0, k);
        if a < k - 3 {
            assert(is_alnum(p[a as int]));
        }
    }
    if found {
        a + 3
    } else {
        0
    }
}

/// The end of the longest run of host characters that starts at `from`.
fn host_run_end(s: &Vec<char>, from: usize) -> (b: usize)
    requires
        from <= s.len(),
    ensures
        from <= b <= s.len(),
        forall|i: int| from <= i < b ==> is_host_char(#[trigger] s@[i]),
        b == s.len() || !is_host_char(s@[b as int]),
{
    let mut b: usize = from;
    while b < s.len() && char_is_host(s[b])
        invariant
            from <= b <= s.len(),
            forall|i: int| from <= i < b ==> is_host_char(#[trigger] s@[i]),
        decreases s.len() - b,
    {
        b += 1;
    }
    b
}

/// Decides whether `s` has the generic shape of a top-level domain.
fn has_tld_shape(s: &Vec<char>) -> (r: bool)
    ensures
        r == is_top_level_domain(s@),
{
    let n = s.len();
    if n < 3 || s[0] != '.' || !char_is_alpha(s[n - 1]) {
        return false;
    }
    let mut i: usize = 1;
    while i < n - 1
        invariant
            n == s.len(),
            n >= 3,
            1 <= i <= n - 1,
            forall|k: int| 1 <= k < i ==> is_tld_char(#[trigger] s@[k]),
        decreases n - i,
    {
        if !char_is_tld(s[i]) {
            return false;
        }
        i += 1;
    }
    true
}

/// Decides whether the stretch `from..to` of `s` ends in a top-level domain
/// of the generic shape that leaves a non-empty label before it.
fn ends_in_generic_tld(s: &Vec<char>, from: usize, to: usize) -> (r: bool)
    requires
        from <= to <= s.len(),
    ensures
        r == exists|t: int| from < t < to && is_top_level_domain(#[trigger] s@.subrange(t, to as int)),
{
    if to - from < 4 || !char_is_alpha(s[to - 1]) {
        assert forall|t: int| from < t < to implies !is_top_level_domain(
            #[trigger] s@.subrange(t, to as int),
        ) by {}
        return false;
    }
    let mut j: usize = to - 2;
    while j > from
        invariant
            from <= j <= to - 2,
            to - from >= 4,
            to <= s.len(),
            is_alpha(s@[to - 1]),
            forall|k: int| j < k <= to - 2 ==> is_tld_char(#[trigger] s@[k]),
            forall|t: int| j < t < to ==> !is_top_level_domain(#[trigger] s@.subrange(t, to as int)),
        decreases j,
    {
        let c = s[j];
        if !char_is_tld(c) {
            assert forall|t: int| from < t < to implies !is_top_level_domain(
                #[trigger] s@.subrange(t, to as int),
            ) by {
                // A domain that starts before `j` holds `s[j]` in its middle.
                let d = s@.subrange(t, to as int);
                if t < j && is_top_level_domain(d) {
                    assert(is_tld_char(d[j - t]));
                }
            }
            return false;
        }
        if c == '.' && j <= to - 3 {
            assert(is_top_level_domain(s@.subrange(j as int, to as int)));
            return true;
        }
        j -= 1;
    }
    false
}

/// Decides whether the stretch `from..to` of `s` ends in `entry`, character
/// for character, with a non-empty label before it.
fn ends_in_entry(s: &Vec<char>, from: usize, to: usize, entry: &Vec<char>) -> (r: bool)
    requires
        from <= to <= s.len(),
    ensures
        r == (entry.len() < to - from && s@.subrange(to - entry.len(), to as int) == entry@),
{
    let n = entry.len();
    if n >= to - from {
        return false;
    }
    let start = to - n;
    let mut i: usize = 0;
    while i < n
        invariant
            i <= n,
            n == entry.len(),
            start + n == to,
            to <= s.len(),
            forall|k: int| 0 <= k < i ==> s@[start + k] == #[trigger] entry@[k],
        decreases n - i,
    {
        if s[start + i] != entry[i] {
            return false;
        }
        i += 1;
    }
    assert(s@.subrange(start as int, to as int) =~= entry@);
    true
}

/// In any split of `s` that fits the grammar, the host starts where
/// `scheme_end` says and the top-level domain ends where the run of host
/// characters ends.
proof fn lemma_split_is_forced(
    s: Seq<char>,
    whitelist: Option<Seq<Seq<char>>>,
    start: int,
    stop: int,
    h: int,
    t: int,
    e: int,
)
    requires
        whitelist matches Some(entries) ==> all_entries_shaped(entries),
        0 <= start <= stop <= s.len(),
        start == 0 || is_scheme(s.subrange(0, start)),
        forall|k: int| 0 < k <= s.len() && is_scheme(#[trigger] s.subrange(0, k)) ==> k == start,
        forall|i: int| start <= i < stop ==> is_host_char(#[trigger] s[i]),
        stop == s.len() || !is_host_char(s[stop]),
        splits_as_url(s, whitelist, h, t, e),
    ensures
        h == start,
        e == stop,
        is_top_level_domain(s.subrange(t, e)),
{
    let host = s.subrange(h, t);
    let tld = s.subrange(t, e);
    // Host and top-level domain hold host characters alone.
    assert forall|i: int| h <= i < e implies is_host_char(#[trigger] s[i]) by {
        if i < t {
            assert(is_host_char(host[i - h]));
        } else if t < i < e - 1 {
            assert(is_tld_char(tld[i - t]));
        }
    }
    // Were there a scheme that the split ignores, the domain would have to
    // end before its colon, and its dot would stand among letters and digits.
    if h == 0 && start > 0 && e <= start - 3 {
        assert(is_alnum(s.subrange(0, start)[t]));
    }
}

/// Decides whether `s` is a URL, given a whitelist that has been checked.
fn matches_url(s: &Vec<char>, entries: &Option<Vec<Vec<char>>>) -> (r: bool)
    requires
        rows_of(*entries) matches Some(list) ==> all_entries_shaped(list),
    ensures
        r == is_url(s@, rows_of(*entries)),
{
    let ghost whitelist = rows_of(*entries);
    let start = scheme_end(s);
    let stop = host_run_end(s, start);
    proof {
        assert forall|h: int, t: int, e: int| splits_as_url(s@, whitelist, h, t, e) implies h
            == start && e == stop && is_top_level_domain(s@.subrange(t, e)) by {
            lemma_split_is_forced(s@, whitelist, start as int, stop as int, h, t, e);
        }
    }
    let trailer_ok = stop == s.len() || s[stop] == '/' || s[stop] == '#';
    proof {
        assert forall|t: int| start < t < stop implies is_host(
            #[trigger] s@.subrange(start as int, t),
        ) by {}
    }
    if !trailer_ok {
        return false;
    }
    match entries {
        None => {
            let r = ends_in_generic_tld(s, start, stop);
            proof {
                if r {
                    let t = choose|t: int| start < t < stop && is_top_level_domain(
                        #[trigger] s@.subrange(t, stop as int),
                    );
                    assert(splits_as_url(s@, whitelist, start as int, t, stop as int));
                }
            }
            r
        },
        Some(list) => {
            let mut i: usize = 0;
            while i < list.len()
                invariant
                    i <= list.len(),
                    start <= stop <= s.len(),
                    whitelist == Some(rows(list@)),
                    whitelist == rows_of(*entries),
                    all_entries_shaped(rows(list@)),
                    start == 0 || is_scheme(s@.subrange(0, start as int)),
                    is_trailer(s@.subrange(stop as int, s@.len() as int)),
                    forall|t: int| start < t < stop ==> is_host(#[trigger] s@.subrange(start as int, t)),
                    forall|k: int|
                        0 <= k < i ==> !(list@[k]@.len() < stop - start && s@.subrange(
                            stop - list@[k]@.len(),
                            stop as int,
                        ) == #[trigger] list@[k]@),
                decreases list.len() - i,
            {
                if ends_in_entry(s, start, stop, &list[i]) {
                    proof {
                        let t = stop - list@[i as int]@.len();
                        assert(rows(list@)[i as int] == s@.subrange(t, stop as int));
                        assert(splits_as_url(s@, whitelist, start as int, t, stop as int));
                    }
                    return true;
                }
                i += 1;
            }
            false
        },
    }
}

/// Converts a whitelist to characters and judges it: it must have an entry,
/// and every entry must have the shape of a top-level domain.
fn checked_entries(list: &Vec<&str>) -> (r: Result<Vec<Vec<char>>, UrlError>)
    ensures
        match r {
            Ok(entries) => list.len() > 0 && all_entries_shaped(entry_texts(list@)) && rows(
                entries@,
            ) == entry_texts(list@),
            Err(UrlError::EmptyWhitelist) => list.len() == 0,
            Err(UrlError::InvalidWhitelistEntry) => list.len() > 0 && !all_entries_shaped(
                entry_texts(list@),
            ),
        },
{
    if list.len() == 0 {
        return Err(UrlError::EmptyWhitelist);
    }
    let mut entries: Vec<Vec<char>> = Vec::new();
    let mut i: usize = 0;
    while i < list.len()
        invariant
            i <= list.len(),
            entries.len() == i,
            forall|k: int| 0 <= k < i ==> (#[trigger] entries@[k])@ == list@[k]@,
            forall|k: int| 0 <= k < i ==> is_top_level_domain(#[trigger] entry_texts(list@)[k]),
        decreases list.len() - i,
    {
        let entry = chars_of(list[i]);
        if !has_tld_shape(&entry) {
            assert(!is_top_level_domain(entry_texts(list@)[i as int]));
            return Err(UrlError::InvalidWhitelistEntry);
        }
        entries.push(entry);
        i += 1;
    }
    Ok(entries)
}

/// Validates `url` as a whole, with an optional whitelist of top-level
/// domains.
///
/// A whitelist is judged before the URL is looked at: an empty one, or one
/// with an entry that has not the shape of a top-level domain, is an error
/// whatever `url` holds. Otherwise the answer says whether `url` is an
/// optional scheme, a host label, a top-level domain (of the generic shape,
/// or exactly one of the whitelist's entries) and an optional trailer.
pub fn validate_url(url: &str, top_level_whitelist: Option<&Vec<&str>>) -> (r: Result<
    bool,
    UrlError,
>)
    ensures
        r == url_verdict(url@, whitelist_texts(top_level_whitelist)),
{
    let entries = match top_level_whitelist {
        None => None,
        Some(list) => {
            match checked_entries(list) {
                Ok(entries) => Some(entries),
                Err(e) => {
                    return Err(e);
                },
            }
        },
    };
    let chars = chars_of(url);
    Ok(matches_url(&chars, &entries))
}

/// The whitelist is judged before the URL: one that is empty or holds an
/// entry without the shape of a top-level domain is an error for every URL.
pub proof fn lemma_whitelist_judged_first(url: Seq<char>, entries: Seq<Seq<char>>)
    requires
        entries.len() == 0 || !all_entries_shaped(entries),
    ensures
        url_verdict(url, Some(entries)) is Err,
        forall|other: Seq<char>| url_verdict(other, Some(entries)) == url_verdict(url, Some(entries)),
{
}

/// A whitelist whose only entry is the empty string is an error for every URL.
pub proof fn lemma_empty_entry_is_error(url: Seq<char>)
    ensures
        url_verdict(url, Some(seq![Seq::<char>::empty()])) == Err::<bool, UrlError>(
            UrlError::InvalidWhitelistEntry,
        ),
{
    let entries = seq![Seq::<char>::empty()];
    assert(!is_top_level_domain(entries[0]));
}

/// A whitelist only narrows: what is a URL under a usable whitelist is a
/// URL without one.
pub proof fn lemma_whitelist_narrows(url: Seq<char>, entries: Seq<Seq<char>>)
    requires
        all_entries_shaped(entries),
        is_url(url, Some(entries)),
    ensures
        is_url(url, None),
{
    let (h, t, e) = choose|h: int, t: int, e: int| splits_as_url(url, Some(entries), h, t, e);
    assert(splits_as_url(url, None, h, t, e));
}

impl UrlError {
    /// The text of the error, for a reader.
    pub open spec fn message_text(self) -> Seq<char> {
        match self {
            UrlError::EmptyWhitelist => "The white list is empty."@,
            UrlError::InvalidWhitelistEntry => "Invalid top level domain in white list."@,
        }
    }

    /// A description of the error.
    pub fn message(&self) -> (text: String)
        ensures
            text@ == self.message_text(),
    {
        match self {
            UrlError::EmptyWhitelist => "The white list is empty.".to_string(),
            UrlError::InvalidWhitelistEntry => "Invalid top level domain in white list.".to_string(),
        }
    }
}

} // verus!
