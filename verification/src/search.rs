//! The property search: the filter that a listing request carries, read from its query
//! string, and the conditions it puts on the listing.

use vstd::prelude::*;
use crate::text::{decimal, digit_char, signed_decimal, chars_of, lowercase, lower_text, push_str, trim, trimmed};

verus! {

/// Why a text is not a decimal `i32`, as `ParseIntError` of std tells it.
#[derive(Clone, Copy, PartialEq, Eq, Structural)]
pub enum IdParseError {
    Empty,
    InvalidDigit,
    PosOverflow,
    NegOverflow,
}

/// Whether `c` is an ASCII decimal digit.
pub open spec fn is_digit(c: char) -> bool {
    '0' <= c && c <= '9'
}

/// The value of an ASCII decimal digit.
pub open spec fn digit_value(c: char) -> int {
    c as int - 48
}

/// Reading `ds` digit by digit from the left, as `i32::from_str` does: a character
/// that is no digit, or a value that leaves the range of `i32`, stops it.
pub open spec fn scan_digits(ds: Seq<char>, negative: bool) -> Result<int, IdParseError>
    decreases ds.len(),
{
    if ds.len() == 0 {
        Ok(0)
    } else {
        match scan_digits(ds.drop_last(), negative) {
            Err(e) => Err(e),
            Ok(v) => {
                let c = ds.last();
                if !is_digit(c) {
                    Err(IdParseError::InvalidDigit)
                } else if negative {
                    if v * 10 - digit_value(c) < i32::MIN {
                        Err(IdParseError::NegOverflow)
                    } else {
                        Ok(v * 10 - digit_value(c))
                    }
                } else {
                    if v * 10 + digit_value(c) > i32::MAX {
                        Err(IdParseError::PosOverflow)
                    } else {
                        Ok(v * 10 + digit_value(c))
                    }
                }
            },
        }
    }
}

/// What `i32::from_str` gives for `s`: an optional sign, then at least one digit.
pub open spec fn parse_i32_text(s: Seq<char>) -> Result<int, IdParseError> {
    if s.len() == 0 {
        Err(IdParseError::Empty)
    } else if s[0] == '-' || s[0] == '+' {
        if s.len() == 1 {
            Err(IdParseError::InvalidDigit)
        } else {
            scan_digits(s.drop_first(), s[0] == '-')
        }
    } else {
        scan_digits(s, false)
    }
}

proof fn lemma_scan_range(ds: Seq<char>, negative: bool)
    ensures
        scan_digits(ds, negative) matches Ok(v) ==> i32::MIN <= v <= i32::MAX && (negative ==> v <= 0) && (!negative ==> v >= 0),
    decreases ds.len(),
{
    if ds.len() > 0 {
        lemma_scan_range(ds.drop_last(), negative);
    }
}

/// A decimal `i32`, as `i32::from_str` reads it.
pub fn parse_i32(s: &str) -> (r: Result<i32, IdParseError>)
    ensures
        match r {
            Ok(v) => parse_i32_text(s@) == Ok::<int, IdParseError>(v as int),
            Err(e) => parse_i32_text(s@) == Err::<int, IdParseError>(e),
        },
{
    let v = chars_of(s);
    if v.len() == 0 {
        return Err(IdParseError::Empty);
    }
    let negative = v[0] == '-';
    let start: usize = if v[0] == '-' || v[0] == '+' {
        if v.len() == 1 {
            return Err(IdParseError::InvalidDigit);
        }
        1
    } else {
        0
    };
    let ghost ds = v@.subrange(start as int, v@.len() as int);
    proof {
        if start == 1 {
            assert(ds =~= s@.drop_first());
        } else {
            assert(ds =~= s@);
        }
        lemma_parse_is_scan(s@, ds, start as int, negative);
    }
    let mut acc: i64 = 0;
    let mut i: usize = start;
    while i < v.len()
        invariant
            start <= i <= v@.len(),
            ds == v@.subrange(start as int, v@.len() as int),
            parse_i32_text(s@) == scan_digits(ds, negative),
            scan_digits(ds.take(i - start), negative) == Ok::<int, IdParseError>(acc as int),
            i32::MIN <= acc <= i32::MAX,
            negative ==> acc <= 0,
            !negative ==> acc >= 0,
        decreases v.len() - i,
    {
        let c = v[i];
        proof {
            assert(ds.take(i - start + 1).drop_last() =~= ds.take(i - start));
            assert(ds.take(i - start + 1).last() == c);
        }
        if !('0' <= c && c <= '9') {
            proof {
                assert(scan_digits(ds.take(i - start + 1), negative) == Err::<int, IdParseError>(IdParseError::InvalidDigit));
                lemma_scan_prefix_error(ds, i - start + 1, negative);
            }
            return Err(IdParseError::InvalidDigit);
        }
        let d = (c as u32 - 48) as i64;
        if negative {
            if acc * 10 - d < -2147483648 {
                proof {
                    assert(scan_digits(ds.take(i - start + 1), negative) == Err::<int, IdParseError>(IdParseError::NegOverflow));
                    lemma_scan_prefix_error(ds, i - start + 1, negative);
                }
                return Err(IdParseError::NegOverflow);
            }
            acc = acc * 10 - d;
        } else {
            if acc * 10 + d > 2147483647 {
                proof {
                    assert(scan_digits(ds.take(i - start + 1), negative) == Err::<int, IdParseError>(IdParseError::PosOverflow));
                    lemma_scan_prefix_error(ds, i - start + 1, negative);
                }
                return Err(IdParseError::PosOverflow);
            }
            acc = acc * 10 + d;
        }
        i = i + 1;
    }
    proof {
        assert(ds.take(v@.len() - start) =~= ds);
    }
    Ok(acc as i32)
}

proof fn lemma_parse_is_scan(s: Seq<char>, ds: Seq<char>, start: int, negative: bool)
    requires
        s.len() > 0,
        start == 1 ==> (s[0] == '-' || s[0] == '+') && s.len() > 1 && ds == s.drop_first() && negative == (s[0] == '-'),
        start == 0 ==> !(s[0] == '-' || s[0] == '+') && ds == s && !negative,
        start == 0 || start == 1,
    ensures
        parse_i32_text(s) == scan_digits(ds, negative),
{
}

/// Once a prefix of the digits fails, the whole fails the same way.
proof fn lemma_scan_prefix_error(ds: Seq<char>, n: int, negative: bool)
    requires
        0 <= n <= ds.len(),
        scan_digits(ds.take(n), negative) is Err,
    ensures
        scan_digits(ds, negative) == scan_digits(ds.take(n), negative),
    decreases ds.len() - n,
{
    if n < ds.len() {
        assert(ds.take(n + 1).drop_last() =~= ds.take(n));
        lemma_scan_prefix_error(ds, n + 1, negative);
    } else {
        assert(ds.take(n) =~= ds);
    }
}

/// The message of `ParseIntError` for each reason.
pub open spec fn parse_error_text(e: IdParseError) -> Seq<char> {
    match e {
        IdParseError::Empty => "cannot parse integer from empty string"@,
        IdParseError::InvalidDigit => "invalid digit found in string"@,
        IdParseError::PosOverflow => "number too large to fit in target type"@,
        IdParseError::NegOverflow => "number too small to fit in target type"@,
    }
}

/// The message of `ParseIntError` for a reason.
pub fn parse_error_message(e: IdParseError) -> (r: String)
    ensures
        r@ == parse_error_text(e),
{
    match e {
        IdParseError::Empty => "cannot parse integer from empty string".to_owned(),
        IdParseError::InvalidDigit => "invalid digit found in string".to_owned(),
        IdParseError::PosOverflow => "number too large to fit in target type".to_owned(),
        IdParseError::NegOverflow => "number too small to fit in target type".to_owned(),
    }
}

/// A query parameter as the search reads it: trimmed, and absent when blank.
pub open spec fn blank_to_none(v: Option<String>) -> Option<Seq<char>> {
    match v {
        None => None,
        Some(s) => text_param(s@),
    }
}

/// A given text parameter as the search reads it: trimmed, and absent when blank.
pub open spec fn text_param(v: Seq<char>) -> Option<Seq<char>> {
    if trim(v).len() == 0 {
        None
    } else {
        Some(trim(v))
    }
}

/// A given id parameter as the search reads it: absent when blank, else a decimal
/// `i32`, or the reason it is not one.
pub open spec fn id_text(v: Seq<char>) -> Result<Option<i32>, Seq<char>> {
    match text_param(v) {
        None => Ok(None),
        Some(t) => match parse_i32_text(t) {
            Ok(n) => Ok(Some(n as i32)),
            Err(e) => Err(parse_error_text(e)),
        },
    }
}

/// A text query parameter: trimmed, and absent when blank.
pub fn empty_string_as_none(value: Option<String>) -> (r: Option<String>)
    ensures
        match r {
            Some(t) => blank_to_none(value) == Some(t@),
            None => blank_to_none(value) is None,
        },
{
    match value {
        None => None,
        Some(s) => {
            let t = trimmed(s.as_str());
            if t.as_str().is_empty() {
                None
            } else {
                Some(t)
            }
        },
    }
}

/// What an id query parameter reads as.
pub open spec fn id_param(value: Option<String>) -> Result<Option<i32>, Seq<char>> {
    match value {
        None => Ok(None),
        Some(s) => id_text(s@),
    }
}

/// An id query parameter: absent when blank, else a decimal `i32`, or the reason it
/// is not one.
pub fn optional_id(value: Option<String>) -> (r: Result<Option<i32>, String>)
    ensures
        match r {
            Ok(v) => id_param(value) == Ok::<Option<i32>, Seq<char>>(v),
            Err(m) => id_param(value) == Err::<Option<i32>, Seq<char>>(m@),
        },
{
    match empty_string_as_none(value) {
        None => Ok(None),
        Some(t) => match parse_i32(t.as_str()) {
            Ok(n) => Ok(Some(n)),
            Err(e) => Err(parse_error_message(e)),
        },
    }
}

/// The filter of a property listing.
pub struct PropertyFilter {
    pub q: Option<String>,
    pub category_id: Option<i32>,
    pub status_id: Option<i32>,
    pub district_id: Option<i32>,
}

/// The filter fields that a query string has set so far: for each field, whether it
/// was given, and what it read as.
pub struct FilterReading {
    pub q: Option<Option<Seq<char>>>,
    pub category_id: Option<Option<i32>>,
    pub status_id: Option<Option<i32>>,
    pub district_id: Option<Option<i32>>,
}

/// The message for a filter field given twice.
pub open spec fn duplicate_text(field: Seq<char>) -> Seq<char> {
    "duplicate field `"@ + field + "`"@
}

/// Reading one `key=value` pair of the query string: a filter field given a second
/// time is refused, an id that is no `i32` is refused with its reason, and keys that
/// name no filter field are passed over.
pub open spec fn read_pair(st: FilterReading, key: Seq<char>, value: Seq<char>) -> Result<FilterReading, Seq<char>> {
    if key == "q"@ {
        if st.q is Some {
            Err(duplicate_text("q"@))
        } else {
            Ok(FilterReading { q: Some(text_param(value)), ..st })
        }
    } else if key == "category_id"@ {
        if st.category_id is Some {
            Err(duplicate_text("category_id"@))
        } else {
            match id_text(value) {
                Ok(x) => Ok(FilterReading { category_id: Some(x), ..st }),
                Err(m) => Err(m),
            }
        }
    } else if key == "status_id"@ {
        if st.status_id is Some {
            Err(duplicate_text("status_id"@))
        } else {
            match id_text(value) {
                Ok(x) => Ok(FilterReading { status_id: Some(x), ..st }),
                Err(m) => Err(m),
            }
        }
    } else if key == "district_id"@ {
        if st.district_id is Some {
            Err(duplicate_text("district_id"@))
        } else {
            match id_text(value) {
                Ok(x) => Ok(FilterReading { district_id: Some(x), ..st }),
                Err(m) => Err(m),
            }
        }
    } else {
        Ok(st)
    }
}

/// Reading the pairs of a query string in their order; the first refusal stops it.
pub open spec fn read_pairs(pairs: Seq<(Seq<char>, Seq<char>)>) -> Result<FilterReading, Seq<char>>
    decreases pairs.len(),
{
    if pairs.len() == 0 {
        Ok(FilterReading { q: None, category_id: None, status_id: None, district_id: None })
    } else {
        match read_pairs(pairs.drop_last()) {
            Err(e) => Err(e),
            Ok(st) => read_pair(st, pairs.last().0, pairs.last().1),
        }
    }
}

/// A field that was not given reads as absent.
pub open spec fn given<T>(v: Option<Option<T>>) -> Option<T> {
    match v {
        Some(x) => x,
        None => None,
    }
}

/// The character views of query-string pairs.
pub open spec fn pair_views(pairs: Seq<(String, String)>) -> Seq<(Seq<char>, Seq<char>)> {
    pairs.map_values(|p: (String, String)| (p.0@, p.1@))
}

/// The filter as far as it is read: its fields by their views.
pub open spec fn filter_reading_matches(f: PropertyFilter, st: FilterReading) -> bool {
    &&& match f.q {
        Some(t) => given(st.q) == Some(t@),
        None => given(st.q) is None,
    }
    &&& f.category_id == given(st.category_id)
    &&& f.status_id == given(st.status_id)
    &&& f.district_id == given(st.district_id)
}

/// Once a prefix of the pairs is refused, the whole query string is refused the same way.
proof fn lemma_read_prefix_error(pairs: Seq<(Seq<char>, Seq<char>)>, n: int)
    requires
        0 <= n <= pairs.len(),
        read_pairs(pairs.take(n)) is Err,
    ensures
        read_pairs(pairs) == read_pairs(pairs.take(n)),
    decreases pairs.len() - n,
{
    if n < pairs.len() {
        assert(pairs.take(n + 1).drop_last() =~= pairs.take(n));
        lemma_read_prefix_error(pairs, n + 1);
    } else {
        assert(pairs.take(n) =~= pairs);
    }
}

fn duplicate_field(field: &str) -> (r: String)
    ensures
        r@ == duplicate_text(field@),
{
    let mut r = "duplicate field `".to_owned();
    push_str(&mut r, field);
    push_str(&mut r, "`");
    r
}

impl PropertyFilter {
    /// The filter that a listing's query string gives, its `key=value` pairs read in
    /// order: blank parameters are absent, the search text is trimmed, each id must be
    /// a decimal `i32`, a filter field may be given once, and other keys are passed
    /// over. The first pair that is refused makes the request fail with its reason.
    pub fn from_query(pairs: &[(String, String)]) -> (r: Result<PropertyFilter, String>)
        ensures
            match r {
                Ok(f) => read_pairs(pair_views(pairs@)) matches Ok(st) && filter_reading_matches(f, st),
                Err(m) => read_pairs(pair_views(pairs@)) == Err::<FilterReading, Seq<char>>(m@),
            },
    {
        let ghost views = pair_views(pairs@);
        let mut q_given = false;
        let mut q: Option<String> = None;
        let mut category_given = false;
        let mut category_id: Option<i32> = None;
        let mut status_given = false;
        let mut status_id: Option<i32> = None;
        let mut district_given = false;
        let mut district_id: Option<i32> = None;
        let mut i: usize = 0;
        while i < pairs.len()
            invariant
                i <= pairs@.len(),
                views == pair_views(pairs@),
                read_pairs(views.take(i as int)) matches Ok(st) && {
                    &&& st.q is Some == q_given
                    &&& st.category_id is Some == category_given
                    &&& st.status_id is Some == status_given
                    &&& st.district_id is Some == district_given
                    &&& filter_reading_matches(
                        PropertyFilter { q, category_id, status_id, district_id },
                        st,
                    )
                },
            decreases pairs.len() - i,
        {
            let ghost before = views.take(i as int);
            proof {
                assert(views.take(i + 1).drop_last() =~= before);
                assert(views.take(i + 1).last() == (pairs@[i as int].0@, pairs@[i as int].1@));
            }
            let key = pairs[i].0.as_str();
            let value = pairs[i].1.as_str();
            if crate::text::text_equals(key, "q") {
                if q_given {
                    proof {
                        lemma_read_prefix_error(views, i + 1);
                    }
                    return Err(duplicate_field("q"));
                }
                q_given = true;
                q = empty_string_as_none(Some(value.to_owned()));
            } else if crate::text::text_equals(key, "category_id") {
                if category_given {
                    proof {
                        lemma_read_prefix_error(views, i + 1);
                    }
                    return Err(duplicate_field("category_id"));
                }
                category_given = true;
                category_id = match optional_id(Some(value.to_owned())) {
                    Ok(x) => x,
                    Err(m) => {
                        proof {
                            lemma_read_prefix_error(views, i + 1);
                        }
                        return Err(m);
                    },
                };
            } else if crate::text::text_equals(key, "status_id") {
                if status_given {
                    proof {
                        lemma_read_prefix_error(views, i + 1);
                    }
                    return Err(duplicate_field("status_id"));
                }
                status_given = true;
                status_id = match optional_id(Some(value.to_owned())) {
                    Ok(x) => x,
                    Err(m) => {
                        proof {
                            lemma_read_prefix_error(views, i + 1);
                        }
                        return Err(m);
                    },
                };
            } else if crate::text::text_equals(key, "district_id") {
                if district_given {
                    proof {
                        lemma_read_prefix_error(views, i + 1);
                    }
                    return Err(duplicate_field("district_id"));
                }
                district_given = true;
                district_id = match optional_id(Some(value.to_owned())) {
                    Ok(x) => x,
                    Err(m) => {
                        proof {
                            lemma_read_prefix_error(views, i + 1);
                        }
                        return Err(m);
                    },
                };
            }
            i = i + 1;
        }
        proof {
            assert(views.take(pairs@.len() as int) =~= views);
        }
        Ok(PropertyFilter { q, category_id, status_id, district_id })
    }
}

/// A condition that a property listing puts on the properties it shows.
pub enum PropertyCondition {
    /// The lowercased title or address contains the search text: a `LIKE` pattern.
    TextSearch(String),
    Category(i32),
    Status(i32),
    District(i32),
}

/// A listing condition, by the view of its pattern.
pub enum ConditionView {
    TextSearch(Seq<char>),
    Category(i32),
    Status(i32),
    District(i32),
}

impl View for PropertyCondition {
    type V = ConditionView;

    open spec fn view(&self) -> ConditionView {
        match self {
            PropertyCondition::TextSearch(p) => ConditionView::TextSearch(p@),
            PropertyCondition::Category(i) => ConditionView::Category(*i),
            PropertyCondition::Status(i) => ConditionView::Status(*i),
            PropertyCondition::District(i) => ConditionView::District(*i),
        }
    }
}

/// The `LIKE` pattern that finds a text anywhere in a lowercased column.
pub open spec fn search_pattern(text: Seq<char>) -> Seq<char> {
    seq!['%'] + lower_text(text) + seq!['%']
}

/// The conditions of a filter, in the order the listing query applies them: the
/// search text when it is not blank, then category, status and district when given.
pub open spec fn filter_conditions(f: PropertyFilter) -> Seq<ConditionView> {
    let text = match f.q {
        Some(q) => if trim(q@).len() > 0 {
            seq![ConditionView::TextSearch(search_pattern(trim(q@)))]
        } else {
            Seq::empty()
        },
        None => Seq::empty(),
    };
    let category = match f.category_id {
        Some(i) => seq![ConditionView::Category(i)],
        None => Seq::empty(),
    };
    let status = match f.status_id {
        Some(i) => seq![ConditionView::Status(i)],
        None => Seq::empty(),
    };
    let district = match f.district_id {
        Some(i) => seq![ConditionView::District(i)],
        None => Seq::empty(),
    };
    text + category + status + district
}

/// The conditions that a filter puts on the property listing.
pub fn property_conditions(filter: &PropertyFilter) -> (r: Vec<PropertyCondition>)
    ensures
        r@.map_values(|c: PropertyCondition| c@) == filter_conditions(*filter),
{
    let ghost f = *filter;
    let mut r: Vec<PropertyCondition> = Vec::new();
    if let Some(q) = &filter.q {
        let t = trimmed(q.as_str());
        if !t.as_str().is_empty() {
            let mut pattern = "%".to_owned();
            let lowered = lowercase(t.as_str());
            push_str(&mut pattern, lowered.as_str());
            push_str(&mut pattern, "%");
            proof {
                reveal_strlit("%");
                assert(pattern@ =~= search_pattern(trim(q@)));
            }
            r.push(PropertyCondition::TextSearch(pattern));
        }
    }
    let ghost text = match f.q {
        Some(q) => if trim(q@).len() > 0 {
            seq![ConditionView::TextSearch(search_pattern(trim(q@)))]
        } else {
            Seq::empty()
        },
        None => Seq::empty(),
    };
    assert(r@.map_values(|c: PropertyCondition| c@) =~= text);
    if let Some(i) = filter.category_id {
        r.push(PropertyCondition::Category(i));
    }
    let ghost category = match f.category_id {
        Some(i) => seq![ConditionView::Category(i)],
        None => Seq::empty(),
    };
    assert(r@.map_values(|c: PropertyCondition| c@) =~= text + category);
    if let Some(i) = filter.status_id {
        r.push(PropertyCondition::Status(i));
    }
    let ghost status = match f.status_id {
        Some(i) => seq![ConditionView::Status(i)],
        None => Seq::empty(),
    };
    assert(r@.map_values(|c: PropertyCondition| c@) =~= text + category + status);
    if let Some(i) = filter.district_id {
        r.push(PropertyCondition::District(i));
    }
    let ghost district = match f.district_id {
        Some(i) => seq![ConditionView::District(i)],
        None => Seq::empty(),
    };
    assert(r@.map_values(|c: PropertyCondition| c@) =~= text + category + status + district);
    r
}

/// The search text of a filter: its text trimmed, when that is not blank.
pub open spec fn search_text(f: PropertyFilter) -> Option<Seq<char>> {
    match f.q {
        Some(q) => if trim(q@).len() > 0 {
            Some(trim(q@))
        } else {
            None
        },
        None => None,
    }
}

/// Whether the filter `f` sets the condition `c`.
pub open spec fn filter_sets(f: PropertyFilter, c: ConditionView) -> bool {
    match c {
        ConditionView::TextSearch(p) => search_text(f) is Some && p == search_pattern(
            search_text(f)->0,
        ),
        ConditionView::Category(i) => f.category_id == Some(i),
        ConditionView::Status(i) => f.status_id == Some(i),
        ConditionView::District(i) => f.district_id == Some(i),
    }
}

/// Every condition that `wider` sets, `narrower` sets too: the same search text, and
/// the same category, status and district where `wider` gives them.
pub open spec fn narrows(wider: PropertyFilter, narrower: PropertyFilter) -> bool {
    &&& search_text(wider) is Some ==> search_text(narrower) == search_text(wider)
    &&& wider.category_id is Some ==> narrower.category_id == wider.category_id
    &&& wider.status_id is Some ==> narrower.status_id == wider.status_id
    &&& wider.district_id is Some ==> narrower.district_id == wider.district_id
}

proof fn lemma_filter_conditions_members(f: PropertyFilter, c: ConditionView)
    ensures
        filter_conditions(f).contains(c) <==> filter_sets(f, c),
{
    let s = filter_conditions(f);
    if filter_sets(f, c) {
        let text_len: int = if search_text(f) is Some { 1 } else { 0 };
        let cat_len: int = if f.category_id is Some { 1 } else { 0 };
        let status_len: int = if f.status_id is Some { 1 } else { 0 };
        match c {
            ConditionView::TextSearch(_) => assert(s[0] == c),
            ConditionView::Category(_) => assert(s[text_len] == c),
            ConditionView::Status(_) => assert(s[text_len + cat_len] == c),
            ConditionView::District(_) => assert(s[text_len + cat_len + status_len] == c),
        }
    }
    if s.contains(c) {
        let i = choose|i: int| 0 <= i < s.len() && s[i] == c;
        assert(s[i] == c);
    }
}

/// A narrower filter never lists more: when `narrower` sets every condition that
/// `wider` sets, every condition of `wider` is one of `narrower`, and the listing, which
/// keeps the properties that meet all of its conditions, keeps no property that `wider`
/// leaves out. A blank search text puts no condition: a filter whose search is only
/// white space lists what the same filter without a search lists.
pub proof fn law_filter_narrows(wider: PropertyFilter, narrower: PropertyFilter)
    ensures
        narrows(wider, narrower) ==> forall|c: ConditionView| #[trigger]
            filter_conditions(wider).contains(c) ==> filter_conditions(narrower).contains(c),
        wider.q is None && narrower.q is Some && trim(narrower.q->0@).len() == 0
            && narrower.category_id == wider.category_id && narrower.status_id
            == wider.status_id && narrower.district_id == wider.district_id
            ==> filter_conditions(narrower) == filter_conditions(wider),
{
    assert forall|c: ConditionView|
        narrows(wider, narrower) && #[trigger] filter_conditions(wider).contains(
            c,
        ) implies filter_conditions(narrower).contains(c) by {
        lemma_filter_conditions_members(wider, c);
        lemma_filter_conditions_members(narrower, c);
    }
    if wider.q is None && narrower.q is Some && trim(narrower.q->0@).len() == 0
        && narrower.category_id == wider.category_id && narrower.status_id == wider.status_id
        && narrower.district_id == wider.district_id {
        let cat = match wider.category_id {
            Some(i) => seq![ConditionView::Category(i)],
            None => Seq::empty(),
        };
        let status = match wider.status_id {
            Some(i) => seq![ConditionView::Status(i)],
            None => Seq::empty(),
        };
        let district = match wider.district_id {
            Some(i) => seq![ConditionView::District(i)],
            None => Seq::empty(),
        };
        assert(filter_conditions(wider) == Seq::<ConditionView>::empty() + cat + status
            + district);
        assert(filter_conditions(narrower) == Seq::<ConditionView>::empty() + cat + status
            + district);
    }
}

proof fn lemma_decimal_digits(n: nat)
    ensures
        decimal(n).len() > 0,
        forall|k: int| 0 <= k < decimal(n).len() ==> is_digit(#[trigger] decimal(n)[k]),
    decreases n,
{
    if n >= 10 {
        lemma_decimal_digits(n / 10);
        assert forall|k: int| 0 <= k < decimal(n).len() implies is_digit(#[trigger] decimal(n)[k]) by {
            if k < decimal(n / 10).len() {
                assert(decimal(n)[k] == decimal(n / 10)[k]);
            }
        }
    }
}

proof fn lemma_scan_decimal(n: nat, negative: bool)
    requires
        negative ==> n <= 2147483648,
        !negative ==> n <= 2147483647,
    ensures
        scan_digits(decimal(n), negative) == Ok::<int, IdParseError>(if negative {
            -(n as int)
        } else {
            n as int
        }),
    decreases n,
{
    let d = decimal(n);
    if n < 10 {
        assert(d.drop_last() =~= Seq::<char>::empty());
        assert(d.last() == digit_char(n));
        assert(digit_value(digit_char(n)) == n);
        assert(is_digit(digit_char(n)));
        assert(scan_digits(d.drop_last(), negative) == Ok::<int, IdParseError>(0));
    } else {
        let q = n / 10;
        let r = n % 10;
        lemma_scan_decimal(q, negative);
        assert(d.drop_last() =~= decimal(q));
        assert(d.last() == digit_char(r));
        assert(digit_value(digit_char(r)) == r);
        assert(is_digit(digit_char(r)));
        assert(q * 10 + r == n) by (nonlinear_arith)
            requires
                q == n / 10,
                r == n % 10,
        ;
        let v: int = if negative { -(q as int) } else { q as int };
        assert(scan_digits(d.drop_last(), negative) == Ok::<int, IdParseError>(v));
        if negative {
            assert(v * 10 - digit_value(d.last()) == -(n as int));
        } else {
            assert(v * 10 + digit_value(d.last()) == n as int);
        }
    }
}

/// An id written as decimal text reads back as the same id: the ids that pages put in
/// their choice lists come back unchanged through the listing filter.
pub proof fn law_id_text_round_trip(n: i32)
    ensures
        parse_i32_text(signed_decimal(n as int)) == Ok::<int, IdParseError>(n as int),
{
    if n < 0 {
        let m = (-(n as int)) as nat;
        let s = signed_decimal(n as int);
        lemma_decimal_digits(m);
        lemma_scan_decimal(m, true);
        assert(s[0] == '-');
        assert(s.drop_first() =~= decimal(m));
    } else {
        let m = n as nat;
        lemma_decimal_digits(m);
        lemma_scan_decimal(m, false);
        let s = decimal(m);
        assert(is_digit(s[0]));
    }
}


/// A given id field reads as the id it holds: after any pairs that were read without
/// refusal and left the field unset, a pair that gives `category_id`, `status_id` or
/// `district_id` the decimal text of an `i32` (blanks around it allowed) sets that
/// field to that id and leaves the others as they were. In particular a query string
/// whose only pair is such an id gives a filter with just that id.
pub proof fn law_id_field_read(pairs: Seq<(Seq<char>, Seq<char>)>, v: Seq<char>, n: i32)
    requires
        trim(v) == signed_decimal(n as int),
    ensures
        read_pairs(pairs) is Ok && read_pairs(pairs)->Ok_0.category_id is None ==> read_pairs(
            pairs.push(("category_id"@, v)),
        ) == Ok::<FilterReading, Seq<char>>(
            FilterReading { category_id: Some(Some(n)), ..read_pairs(pairs)->Ok_0 },
        ),
        read_pairs(pairs) is Ok && read_pairs(pairs)->Ok_0.status_id is None ==> read_pairs(
            pairs.push(("status_id"@, v)),
        ) == Ok::<FilterReading, Seq<char>>(
            FilterReading { status_id: Some(Some(n)), ..read_pairs(pairs)->Ok_0 },
        ),
        read_pairs(pairs) is Ok && read_pairs(pairs)->Ok_0.district_id is None ==> read_pairs(
            pairs.push(("district_id"@, v)),
        ) == Ok::<FilterReading, Seq<char>>(
            FilterReading { district_id: Some(Some(n)), ..read_pairs(pairs)->Ok_0 },
        ),
        read_pairs(seq![("district_id"@, v)]) == Ok::<FilterReading, Seq<char>>(
            FilterReading { q: None, category_id: None, status_id: None, district_id: Some(Some(n)) },
        ),
{
    law_id_text_round_trip(n);
    assert(trim(v).len() > 0);
    assert(id_text(v) == Ok::<Option<i32>, Seq<char>>(Some(n)));
    reveal_strlit("category_id");
    reveal_strlit("status_id");
    reveal_strlit("district_id");
    reveal_strlit("q");
    assert("category_id"@.len() != "q"@.len());
    assert("status_id"@.len() != "q"@.len() && "status_id"@.len() != "category_id"@.len());
    assert("district_id"@.len() != "q"@.len() && "district_id"@.len() != "status_id"@.len());
    assert("district_id"@[0] != "category_id"@[0]);
    assert(pairs.push(("category_id"@, v)).drop_last() =~= pairs);
    assert(pairs.push(("status_id"@, v)).drop_last() =~= pairs);
    assert(pairs.push(("district_id"@, v)).drop_last() =~= pairs);
    let none = Seq::<(Seq<char>, Seq<char>)>::empty();
    assert(seq![("district_id"@, v)] =~= none.push(("district_id"@, v)));
    assert(none.push(("district_id"@, v)).drop_last() =~= none);
    assert(read_pairs(none) is Ok && read_pairs(none)->Ok_0.district_id is None);
    assert(read_pairs(none.push(("district_id"@, v))) == Ok::<FilterReading, Seq<char>>(
        FilterReading { q: None, category_id: None, status_id: None, district_id: Some(Some(n)) },
    ));
}

} // verus!
