//! The XML report of the allocator: how many arenas it lists.
use vstd::prelude::*;
use vstd::slice::*;

use crate::text::chars_of;

verus! {

/// How deep the elements of a report may nest.
pub const MAX_MALLOC_INFO_XML_DEPTH: usize = 16;

/// How many attributes a tag may have.
pub const MAX_MALLOC_INFO_TAG_ATTRIBUTES: usize = 16;

/// Why a report is refused.
#[derive(Clone, Copy, Debug, PartialEq, Eq, Structural)]
pub enum MallocInfoError {
    ContainsNul,
    TextOutsideTag,
    ContentAfterRoot,
    IncompleteTag,
    MalformedClosingTag,
    UnmatchedClosingTag,
    MismatchedTags,
    MultipleRoots,
    RootIsNotMalloc,
    IncompleteOpeningTag,
    AttributesNotSeparated,
    TooManyAttributes,
    DuplicateAttribute,
    MissingEquals,
    MissingValue,
    UnquotedValue,
    LessThanInValue,
    UnterminatedValue,
    NestingLimit,
    NoRoot,
    Truncated,
    NoArenas,
    MissingName,
    InvalidName,
}

impl MallocInfoError {
    /// The message of this error.
    pub open spec fn text(self) -> Seq<char> {
        match self {
            MallocInfoError::ContainsNul => "malloc_info output contains NUL"@,
            MallocInfoError::TextOutsideTag => "malloc_info output contains text outside a tag"@,
            MallocInfoError::ContentAfterRoot =>
                "malloc_info output contains content after its root element"@,
            MallocInfoError::IncompleteTag => "malloc_info output has an incomplete tag"@,
            MallocInfoError::MalformedClosingTag => "malloc_info closing tag is malformed"@,
            MallocInfoError::UnmatchedClosingTag =>
                "malloc_info output has an unmatched closing tag"@,
            MallocInfoError::MismatchedTags => "malloc_info output has mismatched tags"@,
            MallocInfoError::MultipleRoots => "malloc_info output has multiple root elements"@,
            MallocInfoError::RootIsNotMalloc => "malloc_info root element is not malloc"@,
            MallocInfoError::IncompleteOpeningTag =>
                "malloc_info output has an incomplete opening tag"@,
            MallocInfoError::AttributesNotSeparated =>
                "malloc_info tag attributes are not separated by whitespace"@,
            MallocInfoError::TooManyAttributes => "malloc_info tag has too many attributes"@,
            MallocInfoError::DuplicateAttribute => "malloc_info tag has a duplicate attribute"@,
            MallocInfoError::MissingEquals => "malloc_info tag attribute is missing '='"@,
            MallocInfoError::MissingValue => "malloc_info tag attribute is missing a value"@,
            MallocInfoError::UnquotedValue => "malloc_info tag attribute value is not quoted"@,
            MallocInfoError::LessThanInValue => "malloc_info tag attribute value contains '<'"@,
            MallocInfoError::UnterminatedValue =>
                "malloc_info tag attribute value is unterminated"@,
            MallocInfoError::NestingLimit => "malloc_info output exceeds its nesting limit"@,
            MallocInfoError::NoRoot => "malloc_info output has no root element"@,
            MallocInfoError::Truncated => "malloc_info output is truncated"@,
            MallocInfoError::NoArenas => "malloc_info returned no allocator arenas"@,
            MallocInfoError::MissingName => "malloc_info tag or attribute name is missing"@,
            MallocInfoError::InvalidName => "malloc_info tag or attribute name is invalid"@,
        }
    }

    pub fn message(self) -> (message: &'static str)
        ensures
            message@ == self.text(),
    {
        match self {
            MallocInfoError::ContainsNul => "malloc_info output contains NUL",
            MallocInfoError::TextOutsideTag => "malloc_info output contains text outside a tag",
            MallocInfoError::ContentAfterRoot =>
                "malloc_info output contains content after its root element",
            MallocInfoError::IncompleteTag => "malloc_info output has an incomplete tag",
            MallocInfoError::MalformedClosingTag => "malloc_info closing tag is malformed",
            MallocInfoError::UnmatchedClosingTag =>
                "malloc_info output has an unmatched closing tag",
            MallocInfoError::MismatchedTags => "malloc_info output has mismatched tags",
            MallocInfoError::MultipleRoots => "malloc_info output has multiple root elements",
            MallocInfoError::RootIsNotMalloc => "malloc_info root element is not malloc",
            MallocInfoError::IncompleteOpeningTag =>
                "malloc_info output has an incomplete opening tag",
            MallocInfoError::AttributesNotSeparated =>
                "malloc_info tag attributes are not separated by whitespace",
            MallocInfoError::TooManyAttributes => "malloc_info tag has too many attributes",
            MallocInfoError::DuplicateAttribute => "malloc_info tag has a duplicate attribute",
            MallocInfoError::MissingEquals => "malloc_info tag attribute is missing '='",
            MallocInfoError::MissingValue => "malloc_info tag attribute is missing a value",
            MallocInfoError::UnquotedValue => "malloc_info tag attribute value is not quoted",
            MallocInfoError::LessThanInValue => "malloc_info tag attribute value contains '<'",
            MallocInfoError::UnterminatedValue =>
                "malloc_info tag attribute value is unterminated",
            MallocInfoError::NestingLimit => "malloc_info output exceeds its nesting limit",
            MallocInfoError::NoRoot => "malloc_info output has no root element",
            MallocInfoError::Truncated => "malloc_info output is truncated",
            MallocInfoError::NoArenas => "malloc_info returned no allocator arenas",
            MallocInfoError::MissingName => "malloc_info tag or attribute name is missing",
            MallocInfoError::InvalidName => "malloc_info tag or attribute name is invalid",
        }
    }
}

pub open spec fn is_ascii_space(c: char) -> bool {
    c == ' ' || c == '\t' || c == '\n' || c == '\u{c}' || c == '\r'
}

pub open spec fn is_letter(c: char) -> bool {
    'a' <= c <= 'z' || 'A' <= c <= 'Z'
}

pub open spec fn starts_name(c: char) -> bool {
    is_letter(c) || c == '_' || c == ':'
}

pub open spec fn continues_name(c: char) -> bool {
    is_letter(c) || '0' <= c <= '9' || c == '_' || c == ':' || c == '.' || c == '-'
}

/// The first position from `i` on that holds no ASCII white space.
pub open spec fn after_space(s: Seq<char>, i: int) -> int
    decreases s.len() - i,
{
    if 0 <= i < s.len() && is_ascii_space(s[i]) {
        after_space(s, i + 1)
    } else {
        i
    }
}

/// The first position from `i` on that cannot continue a name.
pub open spec fn after_name_chars(s: Seq<char>, i: int) -> int
    decreases s.len() - i,
{
    if 0 <= i < s.len() && continues_name(s[i]) {
        after_name_chars(s, i + 1)
    } else {
        i
    }
}

/// The end of the name that starts at `i`.
pub open spec fn name_end(s: Seq<char>, i: int) -> Result<int, MallocInfoError> {
    if i >= s.len() {
        Err(MallocInfoError::MissingName)
    } else if !starts_name(s[i]) {
        Err(MallocInfoError::InvalidName)
    } else {
        Ok(after_name_chars(s, i + 1))
    }
}

/// The position after the closing quote of the value whose characters start at `i`.
pub open spec fn value_end(s: Seq<char>, i: int, quote: char) -> Result<int, MallocInfoError>
    decreases s.len() - i,
{
    if i >= s.len() {
        Err(MallocInfoError::UnterminatedValue)
    } else if s[i] == quote {
        Ok(i + 1)
    } else if s[i] == '<' {
        Err(MallocInfoError::LessThanInValue)
    } else {
        value_end(s, i + 1, quote)
    }
}

/// The position after the equals sign and the quoted value of an attribute whose name ends at `i`.
pub open spec fn assigned_value_end(s: Seq<char>, i: int) -> Result<int, MallocInfoError> {
    let equals = after_space(s, i);
    if equals >= s.len() || s[equals] != '=' {
        Err(MallocInfoError::MissingEquals)
    } else {
        let open = after_space(s, equals + 1);
        if open >= s.len() {
            Err(MallocInfoError::MissingValue)
        } else if s[open] != '\'' && s[open] != '"' {
            Err(MallocInfoError::UnquotedValue)
        } else {
            value_end(s, open + 1, s[open])
        }
    }
}

/// Reads the rest of an opening tag from `i` on, after attributes with the names `seen`: whether
/// the tag closes itself, and the position after it.
pub open spec fn opening_tag_end(s: Seq<char>, i: int, seen: Seq<Seq<char>>) -> Result<
    (bool, int),
    MallocInfoError,
>
    decreases s.len() - i,
    when 0 <= i
{
    let at = after_space(s, i);
    if at >= s.len() {
        Err(MallocInfoError::IncompleteOpeningTag)
    } else if s[at] == '>' {
        Ok((false, at + 1))
    } else if s[at] == '/' && at + 1 < s.len() && s[at + 1] == '>' {
        Ok((true, at + 2))
    } else if at == i {
        Err(MallocInfoError::AttributesNotSeparated)
    } else if seen.len() >= MAX_MALLOC_INFO_TAG_ATTRIBUTES {
        Err(MallocInfoError::TooManyAttributes)
    } else {
        match name_end(s, at) {
            Err(error) => Err(error),
            Ok(end) => {
                let name = s.subrange(at, end);
                if seen.contains(name) {
                    Err(MallocInfoError::DuplicateAttribute)
                } else {
                    match assigned_value_end(s, end) {
                        Err(error) => Err(error),
                        Ok(next) => {
                            proof {
                                lemma_after_space(s, i);
                                lemma_after_name_chars(s, at + 1);
                                lemma_assigned_value_end(s, end);
                            }
                            opening_tag_end(s, next, seen.push(name))
                        },
                    }
                }
            },
        }
    }
}

pub proof fn lemma_after_space(s: Seq<char>, i: int)
    requires
        0 <= i,
    ensures
        i <= after_space(s, i),
        i <= s.len() ==> after_space(s, i) <= s.len(),
    decreases s.len() - i,
{
    if 0 <= i < s.len() && is_ascii_space(s[i]) {
        lemma_after_space(s, i + 1);
    }
}

pub proof fn lemma_after_name_chars(s: Seq<char>, i: int)
    requires
        0 <= i,
    ensures
        i <= after_name_chars(s, i),
        i <= s.len() ==> after_name_chars(s, i) <= s.len(),
    decreases s.len() - i,
{
    if 0 <= i < s.len() && continues_name(s[i]) {
        lemma_after_name_chars(s, i + 1);
    }
}

pub proof fn lemma_value_end(s: Seq<char>, i: int, quote: char)
    requires
        0 <= i,
    ensures
        value_end(s, i, quote) matches Ok(end) ==> i < end <= s.len(),
    decreases s.len() - i,
{
    if i < s.len() && s[i] != quote && s[i] != '<' {
        lemma_value_end(s, i + 1, quote);
    }
}

pub proof fn lemma_assigned_value_end(s: Seq<char>, i: int)
    requires
        0 <= i,
    ensures
        assigned_value_end(s, i) matches Ok(end) ==> i < end <= s.len(),
{
    let equals = after_space(s, i);
    lemma_after_space(s, i);
    if equals < s.len() && s[equals] == '=' {
        let open = after_space(s, equals + 1);
        lemma_after_space(s, equals + 1);
        if open < s.len() {
            lemma_value_end(s, open + 1, s[open]);
        }
    }
}

pub proof fn lemma_opening_tag_end(s: Seq<char>, i: int, seen: Seq<Seq<char>>)
    requires
        0 <= i,
    ensures
        opening_tag_end(s, i, seen) matches Ok((_, end)) ==> i < end <= s.len(),
    decreases s.len() - i,
{
    let at = after_space(s, i);
    lemma_after_space(s, i);
    if at < s.len() && s[at] != '>' && !(s[at] == '/' && at + 1 < s.len() && s[at + 1] == '>') && at
        != i && seen.len() < MAX_MALLOC_INFO_TAG_ATTRIBUTES {
        if let Ok(end) = name_end(s, at) {
            lemma_after_name_chars(s, at + 1);
            lemma_assigned_value_end(s, end);
            if let Ok(next) = assigned_value_end(s, end) {
                if !seen.contains(s.subrange(at, end)) {
                    lemma_opening_tag_end(s, next, seen.push(s.subrange(at, end)));
                }
            }
        }
    }
}

/// What has been read of a report: the names of the open elements, outermost first, whether the
/// root was opened and closed, and how many arenas were listed.
pub struct ReportState {
    pub open: Seq<Seq<char>>,
    pub root_seen: bool,
    pub root_complete: bool,
    pub arenas: nat,
}

/// Reads one tag, whose `<` stands at `i`: the state after it and the position after it.
pub open spec fn read_tag(s: Seq<char>, i: int, state: ReportState) -> Result<
    (ReportState, int),
    MallocInfoError,
> {
    if state.root_complete {
        Err(MallocInfoError::ContentAfterRoot)
    } else if i + 1 >= s.len() {
        Err(MallocInfoError::IncompleteTag)
    } else if s[i + 1] == '/' {
        read_closing_tag(s, i + 2, state)
    } else {
        read_opening_tag(s, i + 1, state)
    }
}

/// Reads a closing tag, whose name starts at `i`.
pub open spec fn read_closing_tag(s: Seq<char>, i: int, state: ReportState) -> Result<
    (ReportState, int),
    MallocInfoError,
> {
    match name_end(s, i) {
        Err(error) => Err(error),
        Ok(end) => {
            let close = after_space(s, end);
            if close >= s.len() || s[close] != '>' {
                Err(MallocInfoError::MalformedClosingTag)
            } else if state.open.len() == 0 {
                Err(MallocInfoError::UnmatchedClosingTag)
            } else if state.open.last() != s.subrange(i, end) {
                Err(MallocInfoError::MismatchedTags)
            } else {
                Ok(
                    (
                        ReportState {
                            open: state.open.drop_last(),
                            root_complete: state.open.len() == 1,
                            ..state
                        },
                        close + 1,
                    ),
                )
            }
        },
    }
}

/// Reads an opening tag, whose name starts at `i`.
pub open spec fn read_opening_tag(s: Seq<char>, i: int, state: ReportState) -> Result<
    (ReportState, int),
    MallocInfoError,
> {
    match name_end(s, i) {
        Err(error) => Err(error),
        Ok(end) => {
            let name = s.subrange(i, end);
            if state.open.len() == 0 && state.root_seen {
                Err(MallocInfoError::MultipleRoots)
            } else if state.open.len() == 0 && name != "malloc"@ {
                Err(MallocInfoError::RootIsNotMalloc)
            } else {
                match opening_tag_end(s, end, Seq::empty()) {
                    Err(error) => Err(error),
                    Ok((self_closing, next)) => {
                        let arenas = if state.open.len() == 1 && name == "heap"@ {
                            state.arenas + 1
                        } else {
                            state.arenas
                        };
                        if self_closing {
                            Ok(
                                (
                                    ReportState {
                                        root_seen: true,
                                        root_complete: state.open.len() == 0,
                                        arenas,
                                        ..state
                                    },
                                    next,
                                ),
                            )
                        } else if state.open.len() >= MAX_MALLOC_INFO_XML_DEPTH {
                            Err(MallocInfoError::NestingLimit)
                        } else {
                            Ok(
                                (
                                    ReportState {
                                        open: state.open.push(name),
                                        root_seen: true,
                                        arenas,
                                        ..state
                                    },
                                    next,
                                ),
                            )
                        }
                    },
                }
            }
        },
    }
}

/// A tag is not empty and lies within the report.
pub proof fn lemma_read_tag(s: Seq<char>, i: int, state: ReportState)
    requires
        0 <= i < s.len(),
    ensures
        read_tag(s, i, state) matches Ok((_, next)) ==> i < next <= s.len(),
{
    if !state.root_complete && i + 1 < s.len() {
        if s[i + 1] == '/' {
            if let Ok(end) = name_end(s, i + 2) {
                lemma_after_name_chars(s, i + 3);
                lemma_after_space(s, end);
            }
        } else if let Ok(end) = name_end(s, i + 1) {
            lemma_after_name_chars(s, i + 2);
            lemma_opening_tag_end(s, end, Seq::empty());
        }
    }
}

/// Reads a report from position `i` on: how many arenas the whole report lists.
pub open spec fn arenas_from(s: Seq<char>, i: int, state: ReportState) -> Result<
    nat,
    MallocInfoError,
>
    decreases s.len() - i,
    when 0 <= i
{
    if i >= s.len() {
        if !state.root_seen {
            Err(MallocInfoError::NoRoot)
        } else if !state.root_complete || state.open.len() != 0 {
            Err(MallocInfoError::Truncated)
        } else if state.arenas == 0 {
            Err(MallocInfoError::NoArenas)
        } else {
            Ok(state.arenas)
        }
    } else if s[i] != '<' {
        if is_ascii_space(s[i]) {
            arenas_from(s, i + 1, state)
        } else {
            Err(MallocInfoError::TextOutsideTag)
        }
    } else {
        proof {
            lemma_read_tag(s, i, state);
        }
        match read_tag(s, i, state) {
            Err(error) => Err(error),
            Ok((after, next)) => arenas_from(s, next, after),
        }
    }
}

/// The state before anything was read.
pub open spec fn nothing_read() -> ReportState {
    ReportState { open: Seq::empty(), root_seen: false, root_complete: false, arenas: 0 }
}

/// How many arenas a report lists: the elements `heap` directly below its root `malloc`.
pub open spec fn arena_count(s: Seq<char>) -> Result<nat, MallocInfoError> {
    if s.contains('\0') {
        Err(MallocInfoError::ContainsNul)
    } else {
        arenas_from(s, 0, nothing_read())
    }
}

fn is_ascii_space_char(c: char) -> (space: bool)
    ensures
        space == is_ascii_space(c),
{
    c == ' ' || c == '\t' || c == '\n' || c == '\u{c}' || c == '\r'
}

fn starts_name_char(c: char) -> (starts: bool)
    ensures
        starts == starts_name(c),
{
    ('a' <= c && c <= 'z') || ('A' <= c && c <= 'Z') || c == '_' || c == ':'
}

fn continues_name_char(c: char) -> (continues: bool)
    ensures
        continues == continues_name(c),
{
    ('a' <= c && c <= 'z') || ('A' <= c && c <= 'Z') || ('0' <= c && c <= '9') || c == '_' || c
        == ':' || c == '.' || c == '-'
}

fn same_chars(a: &[char], b: &[char]) -> (same: bool)
    ensures
        same == (a@ == b@),
{
    if a.len() != b.len() {
        return false;
    }
    let mut i: usize = 0;
    while i < a.len()
        invariant
            i <= a.len() == b.len(),
            forall|j: int| 0 <= j < i ==> a@[j] == b@[j],
        decreases a.len() - i,
    {
        if a[i] != b[i] {
            assert(a@[i as int] != b@[i as int]);
            return false;
        }
        i = i + 1;
    }
    assert(a@ =~= b@);
    true
}

/// The texts that a list of character slices holds.
pub open spec fn slice_texts(slices: Seq<&[char]>) -> Seq<Seq<char>> {
    slices.map_values(|slice: &[char]| slice@)
}

fn contains_chars(names: &Vec<&[char]>, name: &[char]) -> (found: bool)
    ensures
        found == slice_texts(names@).contains(name@),
{
    let mut i: usize = 0;
    while i < names.len()
        invariant
            i <= names.len(),
            forall|j: int| 0 <= j < i ==> slice_texts(names@)[j] != name@,
        decreases names.len() - i,
    {
        if same_chars(names[i], name) {
            assert(slice_texts(names@)[i as int] == name@);
            return true;
        }
        i = i + 1;
    }
    false
}

/// Skips ASCII white space from position `i` on.
pub fn skip_ascii_whitespace(chars: &[char], i: usize) -> (end: usize)
    requires
        i <= chars.len(),
    ensures
        end == after_space(chars@, i as int),
        i <= end <= chars.len(),
{
    let mut end: usize = i;
    while end < chars.len() && is_ascii_space_char(chars[end])
        invariant
            i <= end <= chars.len(),
            after_space(chars@, end as int) == after_space(chars@, i as int),
        decreases chars.len() - end,
    {
        end = end + 1;
    }
    end
}

/// Reads the name that starts at position `i`, and gives its end.
pub fn parse_malloc_info_xml_name(chars: &[char], i: usize) -> (parsed: Result<
    usize,
    MallocInfoError,
>)
    requires
        i <= chars.len(),
    ensures
        match parsed {
            Ok(end) => name_end(chars@, i as int) == Ok::<int, MallocInfoError>(end as int) && i
                < end <= chars.len(),
            Err(error) => name_end(chars@, i as int) == Err::<int, MallocInfoError>(error),
        },
{
    if i >= chars.len() {
        return Err(MallocInfoError::MissingName);
    }
    if !starts_name_char(chars[i]) {
        return Err(MallocInfoError::InvalidName);
    }
    let mut end: usize = i + 1;
    while end < chars.len() && continues_name_char(chars[end])
        invariant
            i < end <= chars.len(),
            after_name_chars(chars@, end as int) == after_name_chars(chars@, i + 1),
        decreases chars.len() - end,
    {
        end = end + 1;
    }
    Ok(end)
}

fn read_value(chars: &[char], i: usize, quote: char) -> (parsed: Result<usize, MallocInfoError>)
    requires
        i <= chars.len(),
    ensures
        match parsed {
            Ok(end) => value_end(chars@, i as int, quote) == Ok::<int, MallocInfoError>(end as int)
                && i < end <= chars.len(),
            Err(error) => value_end(chars@, i as int, quote) == Err::<int, MallocInfoError>(error),
        },
{
    let mut at: usize = i;
    while at < chars.len() && chars[at] != quote
        invariant
            i <= at <= chars.len(),
            value_end(chars@, at as int, quote) == value_end(chars@, i as int, quote),
        decreases chars.len() - at,
    {
        if chars[at] == '<' {
            return Err(MallocInfoError::LessThanInValue);
        }
        at = at + 1;
    }
    if at == chars.len() {
        return Err(MallocInfoError::UnterminatedValue);
    }
    Ok(at + 1)
}

fn read_assigned_value(chars: &[char], i: usize) -> (parsed: Result<usize, MallocInfoError>)
    requires
        i <= chars.len(),
    ensures
        match parsed {
            Ok(end) => assigned_value_end(chars@, i as int) == Ok::<int, MallocInfoError>(
                end as int,
            ) && i < end <= chars.len(),
            Err(error) => assigned_value_end(chars@, i as int) == Err::<int, MallocInfoError>(
                error,
            ),
        },
{
    let equals = skip_ascii_whitespace(chars, i);
    if equals == chars.len() || chars[equals] != '=' {
        return Err(MallocInfoError::MissingEquals);
    }
    let open = skip_ascii_whitespace(chars, equals + 1);
    if open == chars.len() {
        return Err(MallocInfoError::MissingValue);
    }
    let quote = chars[open];
    if quote != '\'' && quote != '"' {
        return Err(MallocInfoError::UnquotedValue);
    }
    read_value(chars, open + 1, quote)
}

/// Reads the attributes and the end of an opening tag whose name ends at position `i`.
fn finish_opening_tag(chars: &[char], i: usize) -> (parsed: Result<
    (bool, usize),
    MallocInfoError,
>)
    requires
        i <= chars.len(),
    ensures
        match parsed {
            Ok((self_closing, end)) => opening_tag_end(chars@, i as int, Seq::empty()) == Ok::<
                (bool, int),
                MallocInfoError,
            >((self_closing, end as int)) && i < end <= chars.len(),
            Err(error) => opening_tag_end(chars@, i as int, Seq::empty()) == Err::<
                (bool, int),
                MallocInfoError,
            >(error),
        },
{
    let mut at: usize = i;
    let mut seen: Vec<&[char]> = Vec::new();
    assert(slice_texts(seen@) =~= Seq::empty());
    loop
        invariant
            i <= at <= chars.len(),
            seen.len() <= MAX_MALLOC_INFO_TAG_ATTRIBUTES,
            opening_tag_end(chars@, at as int, slice_texts(seen@)) == opening_tag_end(
                chars@,
                i as int,
                Seq::empty(),
            ),
        decreases chars.len() - at,
    {
        let next = skip_ascii_whitespace(chars, at);
        if next == chars.len() {
            return Err(MallocInfoError::IncompleteOpeningTag);
        }
        if chars[next] == '>' {
            return Ok((false, next + 1));
        }
        if chars[next] == '/' && next + 1 < chars.len() && chars[next + 1] == '>' {
            return Ok((true, next + 2));
        }
        if next == at {
            return Err(MallocInfoError::AttributesNotSeparated);
        }
        if seen.len() >= MAX_MALLOC_INFO_TAG_ATTRIBUTES {
            return Err(MallocInfoError::TooManyAttributes);
        }
        let end: usize = match parse_malloc_info_xml_name(chars, next) {
            Ok(end) => end,
            Err(error) => {
                return Err(error);
            },
        };
        let name = slice_subrange(chars, next, end);
        if contains_chars(&seen, name) {
            return Err(MallocInfoError::DuplicateAttribute);
        }
        let after: usize = match read_assigned_value(chars, end) {
            Ok(after) => after,
            Err(error) => {
                return Err(error);
            },
        };
        assert(slice_texts(seen@.push(name)) =~= slice_texts(seen@).push(name@));
        seen.push(name);
        at = after;
    }
}

/// Counts the arenas that a report of `malloc_info` lists: the elements `heap` directly below its
/// root element `malloc`. A report that is not well formed is refused.
pub fn parse_malloc_info_arena_count(xml: &str) -> (parsed: Result<usize, MallocInfoError>)
    ensures
        match parsed {
            Ok(count) => arena_count(xml@) == Ok::<nat, MallocInfoError>(count as nat),
            Err(error) => arena_count(xml@) == Err::<nat, MallocInfoError>(error),
        },
{
    let all = chars_of(xml);
    let chars: &[char] = all.as_slice();
    let mut k: usize = 0;
    while k < chars.len()
        invariant
            k <= chars.len(),
            chars@ == xml@,
            forall|j: int| 0 <= j < k ==> chars@[j] != '\0',
        decreases chars.len() - k,
    {
        if chars[k] == '\0' {
            assert(xml@[k as int] == '\0');
            return Err(MallocInfoError::ContainsNul);
        }
        k = k + 1;
    }
    assert(!xml@.contains('\0'));
    let root = chars_of("malloc");
    let arena = chars_of("heap");
    let mut open: Vec<&[char]> = Vec::new();
    let mut root_seen = false;
    let mut root_complete = false;
    let mut arenas: usize = 0;
    let mut i: usize = 0;
    let ghost mut state = nothing_read();
    assert(slice_texts(open@) =~= state.open);
    while i < chars.len()
        invariant
            chars@ == xml@,
            !xml@.contains('\0'),
            root@ == "malloc"@,
            arena@ == "heap"@,
            i <= chars.len(),
            arenas <= i,
            open.len() <= MAX_MALLOC_INFO_XML_DEPTH,
            state.open == slice_texts(open@),
            state.root_seen == root_seen,
            state.root_complete == root_complete,
            state.arenas == arenas,
            arenas_from(chars@, i as int, state) == arena_count(xml@),
        decreases chars.len() - i,
    {
        if chars[i] != '<' {
            if !is_ascii_space_char(chars[i]) {
                return Err(MallocInfoError::TextOutsideTag);
            }
            i = i + 1;
            continue ;
        }
        if root_complete {
            return Err(MallocInfoError::ContentAfterRoot);
        }
        if i + 1 >= chars.len() {
            return Err(MallocInfoError::IncompleteTag);
        }
        if chars[i + 1] == '/' {
            let end: usize = match parse_malloc_info_xml_name(chars, i + 2) {
                Ok(end) => end,
                Err(error) => {
                    return Err(error);
                },
            };
            let name = slice_subrange(chars, i + 2, end);
            let close = skip_ascii_whitespace(chars, end);
            if close == chars.len() || chars[close] != '>' {
                return Err(MallocInfoError::MalformedClosingTag);
            }
            if open.len() == 0 {
                return Err(MallocInfoError::UnmatchedClosingTag);
            }
            if !same_chars(open[open.len() - 1], name) {
                return Err(MallocInfoError::MismatchedTags);
            }
            root_complete = open.len() == 1;
            let ghost before = open@;
            let _ = open.pop();
            proof {
                assert(slice_texts(open@) =~= slice_texts(before).drop_last());
                state = ReportState { open: state.open.drop_last(), root_complete, ..state };
            }
            i = close + 1;
            continue ;
        }
        let end: usize = match parse_malloc_info_xml_name(chars, i + 1) {
            Ok(end) => end,
            Err(error) => {
                return Err(error);
            },
        };
        let name = slice_subrange(chars, i + 1, end);
        if open.len() == 0 {
            if root_seen {
                return Err(MallocInfoError::MultipleRoots);
            }
            if !same_chars(name, root.as_slice()) {
                return Err(MallocInfoError::RootIsNotMalloc);
            }
        }
        let (self_closing, next): (bool, usize) = match finish_opening_tag(chars, end) {
            Ok(tag) => tag,
            Err(error) => {
                return Err(error);
            },
        };
        root_seen = true;
        if open.len() == 1 && same_chars(name, arena.as_slice()) {
            arenas = arenas + 1;
        }
        if self_closing {
            root_complete = open.len() == 0;
            proof {
                state = ReportState { root_seen, root_complete, arenas: arenas as nat, ..state };
            }
        } else {
            if open.len() >= MAX_MALLOC_INFO_XML_DEPTH {
                return Err(MallocInfoError::NestingLimit);
            }
            proof {
                assert(slice_texts(open@.push(name)) =~= slice_texts(open@).push(name@));
                state =
                ReportState {
                    open: state.open.push(name@),
                    root_seen,
                    arenas: arenas as nat,
                    ..state
                };
            }
            open.push(name);
        }
        i = next;
    }
    if !root_seen {
        return Err(MallocInfoError::NoRoot);
    }
    if !root_complete || open.len() != 0 {
        return Err(MallocInfoError::Truncated);
    }
    if arenas == 0 {
        return Err(MallocInfoError::NoArenas);
    }
    Ok(arenas)
}

/// White space is skipped as far as it goes, and no further.
pub proof fn white_space_is_skipped(s: Seq<char>, i: int)
    requires
        0 <= i <= s.len(),
    ensures
        i <= after_space(s, i) <= s.len(),
        forall|k: int| i <= k < after_space(s, i) ==> is_ascii_space(#[trigger] s[k]),
        after_space(s, i) < s.len() ==> !is_ascii_space(s[after_space(s, i)]),
    decreases s.len() - i,
{
    if i < s.len() && is_ascii_space(s[i]) {
        white_space_is_skipped(s, i + 1);
    }
}

/// A name begins with a letter, an underscore or a colon, and goes on as far as letters, digits and
/// a few signs do.
pub proof fn names_go_as_far_as_they_can(s: Seq<char>, i: int)
    requires
        0 <= i <= s.len(),
    ensures
        name_end(s, i) is Ok <==> i < s.len() && starts_name(s[i]),
        name_end(s, i) matches Ok(end) ==> {
            &&& i < end <= s.len()
            &&& forall|k: int| i < k < end ==> continues_name(#[trigger] s[k])
            &&& end < s.len() ==> !continues_name(s[end])
        },
{
    if i < s.len() {
        lemma_name_chars(s, i + 1);
    }
}

proof fn lemma_name_chars(s: Seq<char>, i: int)
    requires
        0 <= i <= s.len(),
    ensures
        i <= after_name_chars(s, i) <= s.len(),
        forall|k: int| i <= k < after_name_chars(s, i) ==> continues_name(#[trigger] s[k]),
        after_name_chars(s, i) < s.len() ==> !continues_name(s[after_name_chars(s, i)]),
    decreases s.len() - i,
{
    if i < s.len() && continues_name(s[i]) {
        lemma_name_chars(s, i + 1);
    }
}

/// A value ends at the first quote like the one it began with, and holds no `<` before that.
pub proof fn values_end_at_their_quote(s: Seq<char>, i: int, quote: char)
    requires
        0 <= i <= s.len(),
    ensures
        match value_end(s, i, quote) {
            Ok(end) => {
                &&& i < end <= s.len()
                &&& s[end - 1] == quote
                &&& forall|k: int| i <= k < end - 1 ==> #[trigger] s[k] != quote && s[k] != '<'
            },
            Err(MallocInfoError::UnterminatedValue) => forall|k: int|
                i <= k < s.len() ==> #[trigger] s[k] != quote,
            Err(error) => error == MallocInfoError::LessThanInValue && exists|k: int|
                i <= k < s.len() && #[trigger] s[k] == '<',
        },
    decreases s.len() - i,
{
    if i < s.len() && s[i] != quote && s[i] != '<' {
        values_end_at_their_quote(s, i + 1, quote);
    }
}

/// The name of the tag whose `<` stands at `i`.
pub open spec fn tag_name(s: Seq<char>, i: int) -> Seq<char> {
    let start = if s[i + 1] == '/' {
        i + 2
    } else {
        i + 1
    };
    s.subrange(start, name_end(s, start)->Ok_0)
}

/// An arena is counted for each element `heap` directly below the root when it is opened, and for no
/// other tag. A closing tag closes the element that was opened last, and has its name; the root is
/// `malloc`, there is one, and it is complete when it is closed.
pub proof fn heaps_below_the_root_are_counted(s: Seq<char>, i: int, state: ReportState)
    requires
        0 <= i,
        read_tag(s, i, state) is Ok,
        state.open.len() > 0 ==> state.root_seen,
    ensures
        ({
            let (after, next) = read_tag(s, i, state)->Ok_0;
            let closing = s[i + 1] == '/';
            let heap = !closing && state.open.len() == 1 && tag_name(s, i) == "heap"@;
            &&& !state.root_complete
            &&& after.root_seen
            &&& after.arenas == state.arenas + (if heap {
                1nat
            } else {
                0
            })
            &&& closing ==> state.open.len() > 0 && after.open == state.open.drop_last()
                && state.open.last() == tag_name(s, i)
            &&& !closing ==> after.open == state.open || after.open == state.open.push(
                tag_name(s, i),
            )
            &&& !closing && state.open.len() == 0 ==> tag_name(s, i) == "malloc"@
                && !state.root_seen
            &&& after.open.len() > state.open.len() ==> state.open.len() < 16
            &&& after.root_complete <==> after.open.len() == 0
        }),
{
}

/// A report is accepted only with an arena at least, and only if its root was opened and closed and
/// nothing but white space follows; the number is that of the arenas that were counted.
pub proof fn complete_reports_are_accepted(s: Seq<char>, state: ReportState)
    ensures
        arenas_from(s, s.len() as int, state) is Ok <==> state.root_seen && state.root_complete
            && state.open.len() == 0 && state.arenas > 0,
        arenas_from(s, s.len() as int, state) matches Ok(count) ==> count == state.arenas,
{
}

/// White space between tags makes no difference, and other text is refused.
pub proof fn only_white_space_stands_between_tags(s: Seq<char>, i: int, state: ReportState)
    requires
        0 <= i < s.len(),
        s[i] != '<',
    ensures
        is_ascii_space(s[i]) ==> arenas_from(s, i, state) == arenas_from(s, i + 1, state),
        !is_ascii_space(s[i]) ==> arenas_from(s, i, state) is Err,
{
}

} // verus!
