use vstd::prelude::*;

use crate::error::{ParseError, ParseErrorModel};
use crate::text::{chars_of, find_char, find_from, lemma_find_from, range_eq, substring};
use crate::version::{
    all_digits, digits_value, is_digit, opt_version_view, version_result_view, version_spec,
    VersionModel, WappTechVersionPattern,
};

verus! {

/// A rule together with the confidence and version directives written after it.
///
/// Tags are appended to a pattern with the two-character separator `\;`.
#[derive(Debug, PartialEq, Eq)]
pub struct Tagged<T> {
    pub inner: T,
    /// How much a match of this rule counts, in `1..=100`; 100 unless a
    /// `confidence` directive says otherwise.
    pub confidence: i32,
    /// How a version is read from a match.
    pub version: Option<WappTechVersionPattern>,
}

/// Position of the first `\;` in `s` at or after `from`, or `s.len()` if there is none.
pub open spec fn find_delim(s: Seq<char>, from: int) -> int
    decreases s.len() - from,
{
    if from < 0 || from + 1 >= s.len() {
        s.len() as int
    } else if s[from] == '\\' && s[from + 1] == ';' {
        from
    } else {
        find_delim(s, from + 1)
    }
}

pub proof fn lemma_find_delim(s: Seq<char>, from: int)
    requires
        0 <= from <= s.len(),
    ensures
        from <= find_delim(s, from) <= s.len(),
        find_delim(s, from) < s.len() ==> find_delim(s, from) + 1 < s.len(),
    decreases s.len() - from,
{
    if from + 1 < s.len() && !(s[from] == '\\' && s[from + 1] == ';') {
        lemma_find_delim(s, from + 1);
    }
}

pub open spec fn confidence_key() -> Seq<char> {
    "confidence"@
}

pub open spec fn version_key() -> Seq<char> {
    "version"@
}

/// The digits of a confidence value, after an optional leading `+`.
pub open spec fn confidence_digits(v: Seq<char>) -> Seq<char> {
    if v.len() > 0 && v[0] == '+' {
        v.drop_first()
    } else {
        v
    }
}

/// The confidence that `v` states: an integer in `1..=100`.
pub open spec fn confidence_spec(v: Seq<char>) -> Option<i32> {
    let d = confidence_digits(v);
    if all_digits(d) && 1 <= digits_value(d) <= 100 {
        Some(digits_value(d) as i32)
    } else {
        None
    }
}

/// Applies one `key:value` directive to the confidence and version found so far.
pub open spec fn directive_spec(seg: Seq<char>, conf: i32, ver: Option<VersionModel>) -> Result<
    (i32, Option<VersionModel>),
    ParseErrorModel,
> {
    let colon = find_from(seg, ':', 0);
    if colon >= seg.len() {
        Err(ParseErrorModel::MalformedDirective)
    } else {
        let key = seg.subrange(0, colon);
        let val = seg.subrange(colon + 1, seg.len() as int);
        if key == confidence_key() {
            match confidence_spec(val) {
                Some(c) => Ok((c, ver)),
                None => Err(ParseErrorModel::InvalidConfidence),
            }
        } else if key == version_key() {
            match version_spec(val) {
                Ok(v) => Ok((conf, Some(v))),
                Err(e) => Err(e),
            }
        } else {
            Err(ParseErrorModel::UnknownDirective(key))
        }
    }
}

/// Applies, in order, the directives of `s` that start at `from`.
pub open spec fn directives_spec(
    s: Seq<char>,
    from: int,
    conf: i32,
    ver: Option<VersionModel>,
) -> Result<(i32, Option<VersionModel>), ParseErrorModel>
    decreases s.len() - from,
    via directives_spec_decreases
{
    let end = find_delim(s, from);
    match directive_spec(s.subrange(from, end), conf, ver) {
        Err(e) => Err(e),
        Ok((c, v)) => if 0 <= from && end < s.len() {
            directives_spec(s, end + 2, c, v)
        } else {
            Ok((c, v))
        },
    }
}

#[via_fn]
proof fn directives_spec_decreases(
    s: Seq<char>,
    from: int,
    conf: i32,
    ver: Option<VersionModel>,
) {
    if 0 <= from && from <= s.len() {
        lemma_find_delim(s, from);
    } else if from > s.len() {
        assert(find_delim(s, from) == s.len());
    }
}

/// What an authored string compiles to: its bare content, its confidence and its version.
pub open spec fn tags_spec(s: Seq<char>) -> Result<
    (Seq<char>, i32, Option<VersionModel>),
    ParseErrorModel,
> {
    let i = find_delim(s, 0);
    if i >= s.len() {
        Ok((s, 100, None))
    } else {
        match directives_spec(s, i + 2, 100, None) {
            Err(e) => Err(e),
            Ok((c, v)) => Ok((s.subrange(0, i), c, v)),
        }
    }
}

pub open spec fn tags_result_view(
    r: Result<(String, i32, Option<WappTechVersionPattern>), ParseError>,
) -> Result<(Seq<char>, i32, Option<VersionModel>), ParseErrorModel> {
    match r {
        Ok((s, c, v)) => Ok((s@, c, opt_version_view(v))),
        Err(e) => Err(e@),
    }
}

fn find_delim_exec(cs: &Vec<char>, from: usize) -> (r: usize)
    requires
        from <= cs@.len(),
    ensures
        r as int == find_delim(cs@, from as int),
{
    let n = cs.len();
    let mut i = from;
    while i < n && i + 1 < n && !(cs[i] == '\\' && cs[i + 1] == ';')
        invariant
            n == cs@.len(),
            from <= i <= n,
            find_delim(cs@, from as int) == find_delim(cs@, i as int),
        decreases n - i,
    {
        i = i + 1;
    }
    if i >= n || i + 1 >= n {
        n
    } else {
        i
    }
}

fn parse_confidence(v: &str) -> (r: Option<i32>)
    ensures
        r == confidence_spec(v@),
{
    let cs = chars_of(v);
    let n = cs.len();
    let start: usize = if n > 0 && cs[0] == '+' {
        1
    } else {
        0
    };
    let ghost d = confidence_digits(cs@);
    assert(d =~= cs@.subrange(start as int, n as int));
    if start == n {
        return None;
    }
    let mut val: u32 = 0;
    let mut k = start;
    while k < n
        invariant
            n == cs@.len(),
            cs@ == v@,
            d == confidence_digits(cs@),
            start < n,
            start <= k <= n,
            d == cs@.subrange(start as int, n as int),
            forall|j: int| start <= j < k ==> is_digit(#[trigger] cs@[j]),
            val == if digits_value(cs@.subrange(start as int, k as int)) > 100 {
                101
            } else {
                digits_value(cs@.subrange(start as int, k as int))
            },
        decreases n - k,
    {
        let c = cs[k];
        if !('0' <= c && c <= '9') {
            assert(d[k - start] == c);
            assert(!is_digit(d[k - start]));
            assert(!all_digits(d));
            return None;
        }
        let ghost before = cs@.subrange(start as int, k as int);
        assert(before.push(c) =~= cs@.subrange(start as int, k + 1));
        assert(before.push(c).drop_last() =~= before);
        if val <= 100 {
            val = val * 10 + ((c as u32) - ('0' as u32));
            if val > 100 {
                val = 101;
            }
        }
        k = k + 1;
    }
    assert(cs@.subrange(start as int, n as int) == d);
    assert(all_digits(d)) by {
        assert forall|j: int| 0 <= j < d.len() implies is_digit(#[trigger] d[j]) by {
            assert(d[j] == cs@[start + j]);
        }
    }
    if 1 <= val && val <= 100 {
        Some(val as i32)
    } else {
        None
    }
}

/// Splits an authored string into its bare content and the confidence and
/// version that its directives state.
pub fn parse_tags(input: &str) -> (r: Result<(String, i32, Option<WappTechVersionPattern>), ParseError>)
    ensures
        tags_result_view(r) == tags_spec(input@),
{
    let cs = chars_of(input);
    let n = cs.len();
    let i = find_delim_exec(&cs, 0);
    proof {
        lemma_find_delim(cs@, 0);
    }
    if i >= n {
        return Ok((input.to_owned(), 100, None));
    }
    let content = substring(input, 0, i);
    let confidence_word = chars_of("confidence");
    let version_word = chars_of("version");
    let mut conf: i32 = 100;
    let mut ver: Option<WappTechVersionPattern> = None;
    let mut start: usize = i + 2;
    loop
        invariant
            n == cs@.len(),
            cs@ == input@,
            i < n,
            i as int == find_delim(cs@, 0),
            content@ == cs@.subrange(0, i as int),
            start <= n,
            confidence_word@ == confidence_key(),
            version_word@ == version_key(),
            directives_spec(cs@, i + 2, 100, None) == directives_spec(
                cs@,
                start as int,
                conf,
                opt_version_view(ver),
            ),
        decreases n - start,
    {
        let end = find_delim_exec(&cs, start);
        proof {
            lemma_find_delim(cs@, start as int);
        }
        let seg = substring(input, start, end);
        let seg_cs = chars_of(seg.as_str());
        let colon = find_char(&seg_cs, ':', 0);
        proof {
            lemma_find_from(seg_cs@, ':', 0);
            assert(seg_cs@ == cs@.subrange(start as int, end as int));
            assert(directives_spec(cs@, start as int, conf, opt_version_view(ver)) == match directive_spec(
                seg_cs@,
                conf,
                opt_version_view(ver),
            ) {
                Err(e) => Err(e),
                Ok((c, v)) => if end < n {
                    directives_spec(cs@, end + 2, c, v)
                } else {
                    Ok((c, v))
                },
            });
        }
        if colon >= seg_cs.len() {
            return Err(ParseError::MalformedDirective);
        }
        let value = substring(seg.as_str(), colon + 1, seg_cs.len());
        if range_eq(&seg_cs, 0, colon, &confidence_word) {
            match parse_confidence(value.as_str()) {
                Some(c) => {
                    conf = c;
                },
                None => {
                    return Err(ParseError::InvalidConfidence);
                },
            }
        } else if range_eq(&seg_cs, 0, colon, &version_word) {
            let parsed = WappTechVersionPattern::parse(value.as_str());
            assert(version_result_view(parsed) == version_spec(value@));
            match parsed {
                Ok(v) => {
                    ver = Some(v);
                },
                Err(e) => {
                    return Err(e);
                },
            }
        } else {
            return Err(ParseError::UnknownDirective(substring(seg.as_str(), 0, colon)));
        }
        if end >= n {
            return Ok((content, conf, ver));
        }
        start = end + 2;
    }
}

impl Tagged<()> {
    /// An existence check with the given confidence and version.
    pub fn new(confidence: i32, version: Option<WappTechVersionPattern>) -> (r: Self)
        ensures
            r.confidence == confidence,
            r.version == version,
    {
        Tagged { inner: (), confidence, version }
    }
}

impl<T> Tagged<T> {
    /// Reads the directives of `input`, then builds the rule's inner value from
    /// its bare content with `inner_parser`.
    pub fn parse<F>(input: &str, inner_parser: F) -> (r: Result<Self, ParseError>) where
        F: FnOnce(String) -> Result<T, ParseError>,

        requires
            forall|s: String| #[trigger] inner_parser.requires((s,)),
        ensures
            tags_spec(input@) is Err ==> r is Err && r->Err_0@ == tags_spec(input@)->Err_0,
            tags_spec(input@) is Ok ==> match r {
                Ok(t) => {
                    &&& t.confidence == tags_spec(input@)->Ok_0.1
                    &&& opt_version_view(t.version) == tags_spec(input@)->Ok_0.2
                    &&& exists|s: String|
                        s@ == tags_spec(input@)->Ok_0.0 && #[trigger] inner_parser.ensures(
                            (s,),
                            Ok::<T, ParseError>(t.inner),
                        )
                },
                Err(e) => exists|s: String|
                    s@ == tags_spec(input@)->Ok_0.0 && #[trigger] inner_parser.ensures(
                        (s,),
                        Err::<T, ParseError>(e),
                    ),
            },
    {
        match parse_tags(input) {
            Err(e) => Err(e),
            Ok((content, confidence, version)) => {
                let ghost s = content;
                let res = inner_parser(content);
                assert(inner_parser.ensures((s,), res));
                match res {
                    Ok(inner) => {
                        assert(s@ == tags_spec(input@)->Ok_0.0);
                        assert(inner_parser.ensures((s,), Ok::<T, ParseError>(inner)));
                        let t = Tagged { inner, confidence, version };
                        assert(t.inner == inner);
                        assert(exists|x: String|
                            x@ == tags_spec(input@)->Ok_0.0 && #[trigger] inner_parser.ensures(
                                (x,),
                                Ok::<T, ParseError>(t.inner),
                            ));
                        Ok(t)
                    },
                    Err(e) => {
                        assert(inner_parser.ensures((s,), Err::<T, ParseError>(e)));
                        Err(e)
                    },
                }
            },
        }
    }
}

} // verus!
