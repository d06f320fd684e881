use vstd::prelude::*;

use crate::error::{ParseError, ParseErrorModel};
use crate::text::{chars_of, find_char, find_from, lemma_find_from, substring};

verus! {

/// Where a version string comes from: literal text, or a numbered capture group.
#[derive(Debug, PartialEq, Eq)]
pub enum WappTechVersionValue {
    Const(String),
    Var(usize),
}

/// How the version of a match is resolved.
#[derive(Debug, PartialEq, Eq)]
pub enum WappTechVersionPattern {
    Always(WappTechVersionValue),
    Conditional {
        cond_var: usize,
        true_expr: Option<WappTechVersionValue>,
        false_expr: Option<WappTechVersionValue>,
    },
}

/// The mathematical value of a `WappTechVersionValue`.
pub enum ValueModel {
    Const(Seq<char>),
    Var(usize),
}

/// The mathematical value of a `WappTechVersionPattern`.
pub enum VersionModel {
    Always(ValueModel),
    Conditional { cond_var: usize, true_expr: Option<ValueModel>, false_expr: Option<ValueModel> },
}

impl View for WappTechVersionValue {
    type V = ValueModel;

    open spec fn view(&self) -> ValueModel {
        match self {
            WappTechVersionValue::Const(s) => ValueModel::Const(s@),
            WappTechVersionValue::Var(i) => ValueModel::Var(*i),
        }
    }
}

pub open spec fn opt_value_view(v: Option<WappTechVersionValue>) -> Option<ValueModel> {
    match v {
        Some(x) => Some(x@),
        None => None,
    }
}

impl View for WappTechVersionPattern {
    type V = VersionModel;

    open spec fn view(&self) -> VersionModel {
        match self {
            WappTechVersionPattern::Always(v) => VersionModel::Always(v@),
            WappTechVersionPattern::Conditional { cond_var, true_expr, false_expr } =>
                VersionModel::Conditional {
                cond_var: *cond_var,
                true_expr: opt_value_view(*true_expr),
                false_expr: opt_value_view(*false_expr),
            },
        }
    }
}

pub open spec fn opt_version_view(v: Option<WappTechVersionPattern>) -> Option<VersionModel> {
    match v {
        Some(x) => Some(x@),
        None => None,
    }
}

pub open spec fn is_digit(c: char) -> bool {
    '0' <= c && c <= '9'
}

/// A non-empty run of ASCII decimal digits.
pub open spec fn all_digits(s: Seq<char>) -> bool {
    s.len() > 0 && forall|i: int| 0 <= i < s.len() ==> is_digit(#[trigger] s[i])
}

/// The number that the decimal digits `s` spell.
pub open spec fn digits_value(s: Seq<char>) -> nat
    decreases s.len(),
{
    if s.len() == 0 {
        0
    } else {
        digits_value(s.drop_last()) * 10 + ((s.last() as u32) - ('0' as u32)) as nat
    }
}

/// A backslash followed by a digit starts at position `i` of `s`.
pub open spec fn backref_at(s: Seq<char>, i: int) -> bool {
    0 <= i && i + 1 < s.len() && s[i] == '\\' && is_digit(s[i + 1])
}

pub open spec fn contains_backref(s: Seq<char>) -> bool {
    exists|i: int| backref_at(s, i)
}

/// `s` is a backslash followed by digits and nothing else.
pub open spec fn is_whole_backref(s: Seq<char>) -> bool {
    s.len() >= 2 && s[0] == '\\' && all_digits(s.drop_first())
}

/// What a version value compiles to: nothing for an empty string, a capture
/// reference for `\<digits>`, an error where a reference is only part of the
/// text, and the text itself otherwise.
pub open spec fn value_spec(s: Seq<char>) -> Result<Option<ValueModel>, ParseErrorModel> {
    if s.len() == 0 {
        Ok(None)
    } else if is_whole_backref(s) {
        if digits_value(s.drop_first()) <= usize::MAX {
            Ok(Some(ValueModel::Var(digits_value(s.drop_first()) as usize)))
        } else {
            Err(ParseErrorModel::MalformedBackreference)
        }
    } else if contains_backref(s) {
        Err(ParseErrorModel::MalformedBackreference)
    } else {
        Ok(Some(ValueModel::Const(s)))
    }
}

/// Position of the `?` of a conditional version: the first `?` of `s`.
pub open spec fn cond_question(s: Seq<char>) -> int {
    find_from(s, '?', 0)
}

/// Position of the `:` of a conditional version: the first `:` after its `?`.
pub open spec fn cond_colon(s: Seq<char>) -> int {
    find_from(s, ':', cond_question(s) + 1)
}

/// `s` has the shape `prefix ? middle : suffix`, where the prefix holds no `?`,
/// the middle no `:` and the suffix no line feed.
pub open spec fn is_conditional(s: Seq<char>) -> bool {
    &&& cond_question(s) < s.len()
    &&& cond_colon(s) < s.len()
    &&& find_from(s, '\n', cond_colon(s) + 1) == s.len()
}

/// What a version expression compiles to.
pub open spec fn version_spec(s: Seq<char>) -> Result<VersionModel, ParseErrorModel> {
    if is_conditional(s) {
        let q = cond_question(s);
        let c = cond_colon(s);
        match value_spec(s.subrange(0, q)) {
            Err(e) => Err(e),
            Ok(Some(ValueModel::Var(i))) => match value_spec(s.subrange(q + 1, c)) {
                Err(e) => Err(e),
                Ok(t) => match value_spec(s.subrange(c + 1, s.len() as int)) {
                    Err(e) => Err(e),
                    Ok(f) => Ok(VersionModel::Conditional { cond_var: i, true_expr: t, false_expr: f }),
                },
            },
            Ok(_) => Err(ParseErrorModel::ConditionMustReferenceCapture),
        }
    } else {
        match value_spec(s) {
            Err(e) => Err(e),
            Ok(None) => Err(ParseErrorModel::EmptyVersionExpression),
            Ok(Some(v)) => Ok(VersionModel::Always(v)),
        }
    }
}

pub open spec fn value_result_view(r: Result<Option<WappTechVersionValue>, ParseError>) -> Result<
    Option<ValueModel>,
    ParseErrorModel,
> {
    match r {
        Ok(v) => Ok(opt_value_view(v)),
        Err(e) => Err(e@),
    }
}

pub open spec fn version_result_view(r: Result<WappTechVersionPattern, ParseError>) -> Result<
    VersionModel,
    ParseErrorModel,
> {
    match r {
        Ok(v) => Ok(v@),
        Err(e) => Err(e@),
    }
}

proof fn lemma_digits_value_grows(s: Seq<char>, d: char)
    requires
        is_digit(d),
    ensures
        digits_value(s.push(d)) >= digits_value(s),
        digits_value(s.push(d)) == digits_value(s) * 10 + ((d as u32) - ('0' as u32)) as nat,
{
    assert(s.push(d).drop_last() =~= s);
}

fn is_digit_char(c: char) -> (r: bool)
    ensures
        r == is_digit(c),
{
    '0' <= c && c <= '9'
}

impl WappTechVersionValue {
    /// Compiles one value of a version expression.
    pub fn parse(input: &str) -> (r: Result<Option<Self>, ParseError>)
        ensures
            value_result_view(r) == value_spec(input@),
    {
        let cs = chars_of(input);
        let n = cs.len();
        if n == 0 {
            return Ok(None);
        }
        let mut i: usize = 0;
        while i + 1 < n && !(cs[i] == '\\' && is_digit_char(cs[i + 1]))
            invariant
                n == cs@.len(),
                cs@ == input@,
                i < n,
                forall|j: int| 0 <= j < i ==> !backref_at(cs@, j),
            decreases n - i,
        {
            i = i + 1;
        }
        if i + 1 >= n {
            assert(!contains_backref(cs@)) by {
                assert forall|j: int| !backref_at(cs@, j) by {
                    if 0 <= j < i {
                    }
                }
            }
            assert(!is_whole_backref(cs@)) by {
                if is_whole_backref(cs@) {
                    assert(backref_at(cs@, 0)) by {
                        assert(cs@.drop_first()[0] == cs@[1]);
                    }
                }
            }
            return Ok(Some(WappTechVersionValue::Const(input.to_owned())));
        }
        assert(backref_at(cs@, i as int));
        if i != 0 {
            assert(!is_whole_backref(cs@)) by {
                if is_whole_backref(cs@) {
                    assert(cs@.drop_first()[0] == cs@[1]);
                    assert(backref_at(cs@, 0));
                }
            }
            return Err(ParseError::MalformedBackreference);
        }
        let mut v: usize = 0;
        let mut overflow = false;
        let mut k: usize = 1;
        while k < n
            invariant
                n == cs@.len(),
                cs@ == input@,
                i == 0,
                backref_at(cs@, 0),
                1 <= k <= n,
                forall|j: int| 1 <= j < k ==> is_digit(#[trigger] cs@[j]),
                !overflow ==> v == digits_value(cs@.subrange(1, k as int)),
                overflow ==> digits_value(cs@.subrange(1, k as int)) > usize::MAX,
            decreases n - k,
        {
            let c = cs[k];
            if !is_digit_char(c) {
                assert(!all_digits(cs@.drop_first())) by {
                    assert(cs@.drop_first()[k - 1] == c);
                }
                return Err(ParseError::MalformedBackreference);
            }
            let d = ((c as u32) - ('0' as u32)) as usize;
            proof {
                lemma_digits_value_grows(cs@.subrange(1, k as int), c);
                assert(cs@.subrange(1, k as int).push(c) =~= cs@.subrange(1, k + 1));
            }
            if !overflow {
                match v.checked_mul(10) {
                    Some(m) => match m.checked_add(d) {
                        Some(w) => {
                            v = w;
                        },
                        None => {
                            overflow = true;
                        },
                    },
                    None => {
                        overflow = true;
                    },
                }
            }
            k = k + 1;
        }
        assert(cs@.subrange(1, n as int) =~= cs@.drop_first());
        assert(is_whole_backref(cs@)) by {
            assert forall|j: int| 0 <= j < cs@.drop_first().len() implies is_digit(
                #[trigger] cs@.drop_first()[j],
            ) by {
                assert(cs@.drop_first()[j] == cs@[j + 1]);
            }
        }
        if overflow {
            Err(ParseError::MalformedBackreference)
        } else {
            Ok(Some(WappTechVersionValue::Var(v)))
        }
    }
}

impl WappTechVersionPattern {
    /// Compiles the value of a `version` directive.
    pub fn parse(input: &str) -> (r: Result<Self, ParseError>)
        ensures
            version_result_view(r) == version_spec(input@),
    {
        let cs = chars_of(input);
        let n = cs.len();
        let q = find_char(&cs, '?', 0);
        let mut conditional = false;
        let mut c: usize = n;
        if q < n {
            c = find_char(&cs, ':', q + 1);
            if c < n {
                conditional = find_char(&cs, '\n', c + 1) == n;
            }
        }
        proof {
            lemma_find_from(cs@, '?', 0);
            if q < n {
                lemma_find_from(cs@, ':', q + 1);
            }
        }
        if conditional {
            assert(is_conditional(input@));
            let prefix = substring(input, 0, q);
            let cond_var = match WappTechVersionValue::parse(prefix.as_str()) {
                Err(e) => {
                    return Err(e);
                },
                Ok(Some(WappTechVersionValue::Var(i))) => i,
                Ok(_) => {
                    return Err(ParseError::ConditionMustReferenceCapture);
                },
            };
            let middle = substring(input, q + 1, c);
            let true_expr = match WappTechVersionValue::parse(middle.as_str()) {
                Err(e) => {
                    return Err(e);
                },
                Ok(t) => t,
            };
            let suffix = substring(input, c + 1, n);
            let false_expr = match WappTechVersionValue::parse(suffix.as_str()) {
                Err(e) => {
                    return Err(e);
                },
                Ok(f) => f,
            };
            Ok(WappTechVersionPattern::Conditional { cond_var, true_expr, false_expr })
        } else {
            assert(!is_conditional(input@));
            match WappTechVersionValue::parse(input) {
                Err(e) => Err(e),
                Ok(None) => Err(ParseError::EmptyVersionExpression),
                Ok(Some(v)) => Ok(WappTechVersionPattern::Always(v)),
            }
        }
    }
}

} // verus!
