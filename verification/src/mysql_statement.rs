//! Filling in MySQL statements.
//!
//! A statement names its database by `@db_name` and its parameters by `?`. The text protocol has
//! both filled in here; for the binary protocol the parameters are left to the server.
use vstd::prelude::*;
use vstd::string::*;
use vstd::utf8::*;

use crate::number::{decimal, decimal_text, signed_decimal, signed_decimal_text};
use crate::text::{chars_of, matches_at, occurs_at};

verus! {

/// What stands for the database in a statement.
pub const DB_NAME_ARGUMENT_PATTERN: &'static str = "@db_name";

/// A parameter of a statement.
#[derive(Debug)]
pub enum MySqlValue {
    NULL,
    Bytes(Vec<u8>),
    Int(i64),
    UInt(u64),
}

/// What a parameter holds.
#[verifier::ext_equal]
pub enum ValueView {
    NULL,
    Bytes(Seq<u8>),
    Int(int),
    UInt(nat),
}

impl View for MySqlValue {
    type V = ValueView;

    open spec fn view(&self) -> ValueView {
        match self {
            MySqlValue::NULL => ValueView::NULL,
            MySqlValue::Bytes(bytes) => ValueView::Bytes(bytes@),
            MySqlValue::Int(i) => ValueView::Int(*i as int),
            MySqlValue::UInt(u) => ValueView::UInt(*u as nat),
        }
    }
}

/// A lower-case hexadecimal digit.
pub open spec fn hex_digit(digit: int) -> char {
    if digit < 10 {
        ('0' as int + digit) as char
    } else {
        ('a' as int + digit - 10) as char
    }
}

/// Bytes in lower-case hexadecimal, two digits each, the high one first.
pub open spec fn lower_hex(bytes: Seq<u8>) -> Seq<char> {
    Seq::new(
        2 * bytes.len(),
        |i: int|
            if i % 2 == 0 {
                hex_digit(bytes[i / 2] as int / 16)
            } else {
                hex_digit(bytes[i / 2] as int % 16)
            },
    )
}

/// Calls `const_hex::display` and renders what it returns: for each byte, in order, its two
/// lower-case hexadecimal digits, with nothing before, between or after.
#[verifier::external_body]
fn hex_text(bytes: &Vec<u8>) -> (text: String)
    ensures
        text@ == lower_hex(bytes@),
{
    format!("{}", const_hex::display(bytes))
}

/// How a parameter is written in a statement.
pub open spec fn value_text(value: ValueView) -> Seq<char> {
    match value {
        ValueView::NULL => "NULL"@,
        ValueView::Bytes(bytes) => "x'"@ + lower_hex(bytes) + "'"@,
        ValueView::Int(i) => signed_decimal(i),
        ValueView::UInt(u) => decimal(u),
    }
}

/// Writes a parameter.
pub fn format_value(value: &MySqlValue) -> (text: String)
    ensures
        text@ == value_text(value@),
{
    match value {
        MySqlValue::NULL => "NULL".to_owned(),
        MySqlValue::Bytes(bytes) => {
            let mut text = "x'".to_owned();
            let digits = hex_text(bytes);
            text.append(digits.as_str());
            text.append("'");
            text
        },
        MySqlValue::Int(i) => signed_decimal_text(*i),
        MySqlValue::UInt(u) => decimal_text(*u),
    }
}

/// The parameters, as they are written.
pub open spec fn value_texts(params: Seq<MySqlValue>) -> Seq<Seq<char>> {
    params.map_values(|param: MySqlValue| value_text(param@))
}

/// How a database is named in a statement.
pub open spec fn quoted(db_name: Seq<char>) -> Seq<char> {
    "`"@ + db_name + "`"@
}

/// A statement asks for a parameter that was not given.
#[derive(Clone, Copy, Debug, PartialEq, Eq, Structural)]
pub struct MissingArgument {
    pub index: usize,
}

impl MissingArgument {
    pub open spec fn text(self) -> Seq<char> {
        "missing argument: "@ + decimal(self.index as nat)
    }

    pub fn message(self) -> (message: String)
        ensures
            message@ == self.text(),
    {
        let mut message = "missing argument: ".to_owned();
        let number = decimal_text(self.index as u64);
        message.append(number.as_str());
        message
    }
}

/// Which parameters are filled in: these, the first `used` being taken already; or none, where they
/// are left to the server.
pub enum Positional {
    Given(Seq<Seq<char>>, nat),
    LeftAlone,
}

/// A statement with all that it names filled in, from left to right. What is filled in is not read
/// again. The error is the first parameter that is missing.
pub open spec fn filled(
    statement: Seq<char>,
    db_name: Seq<char>,
    params: Positional,
) -> Result<Seq<char>, nat>
    decreases statement.len(),
{
    if statement.len() == 0 {
        Ok(Seq::empty())
    } else if occurs_at(statement, "@db_name"@, 0) && "@db_name"@.len() > 0 {
        after(quoted(db_name), filled(statement.skip("@db_name"@.len() as int), db_name, params))
    } else if params is Given && statement[0] == '?' {
        let used = params->Given_1;
        if used < params->Given_0.len() {
            after(
                params->Given_0[used as int],
                filled(statement.skip(1), db_name, Positional::Given(params->Given_0, used + 1)),
            )
        } else {
            Err(used)
        }
    } else {
        after(seq![statement[0]], filled(statement.skip(1), db_name, params))
    }
}

/// A text before what follows it.
pub open spec fn after(text: Seq<char>, rest: Result<Seq<char>, nat>) -> Result<Seq<char>, nat> {
    match rest {
        Ok(rest) => Ok(text + rest),
        Err(missing) => Err(missing),
    }
}

/// Whether this is what filling in led to.
pub open spec fn is_filled(
    result: Result<String, MissingArgument>,
    expected: Result<Seq<char>, nat>,
) -> bool {
    match result {
        Ok(text) => expected == Ok::<Seq<char>, nat>(text@),
        Err(missing) => expected == Err::<Seq<char>, nat>(missing.index as nat),
    }
}

proof fn lemma_after(first: Seq<char>, second: Seq<char>, rest: Result<Seq<char>, nat>)
    ensures
        after(first, after(second, rest)) == after(first + second, rest),
{
    if rest is Ok {
        assert(first + (second + rest->Ok_0) =~= (first + second) + rest->Ok_0);
    }
}

/// The first parameters as they are written, `used` of them being taken already; none where they
/// are left alone.
spec fn positional(params: Option<Seq<String>>, used: nat) -> Positional {
    match params {
        Some(params) => Positional::Given(params.map_values(|param: String| param@), used),
        None => Positional::LeftAlone,
    }
}

/// Fills in a statement.
fn fill(statement: &str, db_name: &str, params: Option<&Vec<String>>) -> (text: Result<
    String,
    MissingArgument,
>)
    ensures
        is_filled(
            text,
            filled(
                statement@,
                db_name@,
                positional(
                    match params {
                        Some(params) => Some(params@),
                        None => None,
                    },
                    0,
                ),
            ),
        ),
{
    let ghost given = match params {
        Some(params) => Some(params@),
        None => None,
    };
    let mut name = "`".to_owned();
    name.append(db_name);
    name.append("`");
    let chars = chars_of(statement);
    let pattern = chars_of(DB_NAME_ARGUMENT_PATTERN);
    let mut text = String::new();
    let mut last_match: usize = 0;
    let mut i: usize = 0;
    let mut used: usize = 0;
    proof {
        reveal_strlit("@db_name");
        assert(statement@.skip(0) =~= statement@);
        assert(text@ + statement@.subrange(0, 0) =~= Seq::<char>::empty());
        let whole = filled(statement@, db_name@, positional(given, 0));
        if whole is Ok {
            assert(Seq::<char>::empty() + whole->Ok_0 =~= whole->Ok_0);
        }
    }
    while i < chars.len()
        invariant
            chars@ == statement@,
            pattern@ == "@db_name"@,
            pattern.len() == 8,
            name@ == quoted(db_name@),
            last_match <= i <= chars.len(),
            used <= i,
            given == (match params {
                Some(params) => Some(params@),
                None => None::<Seq<String>>,
            }),
            filled(statement@, db_name@, positional(given, 0)) == after(
                text@ + statement@.subrange(last_match as int, i as int),
                filled(statement@.skip(i as int), db_name@, positional(given, used as nat)),
            ),
        decreases chars.len() - i,
    {
        let ghost rest = statement@.skip(i as int);
        let ghost params_left = positional(given, used as nat);
        assert(rest.subrange(0, 1) =~= seq![chars@[i as int]]);
        assert(rest.skip(1) =~= statement@.skip(i + 1));
        proof {
            if i + 8 <= chars.len() {
                assert(rest.subrange(0, 8) =~= chars@.subrange(i as int, i + 8));
                assert(rest.skip(8) =~= statement@.skip(i + 8));
            }
            assert(occurs_at(rest, pattern@, 0) == occurs_at(chars@, pattern@, i as int));
        }
        let ghost before = text@ + statement@.subrange(last_match as int, i as int);
        if matches_at(&chars, &pattern, i) {
            text.append(statement.substring_char(last_match, i));
            assert(text@ =~= before);
            text.append(name.as_str());
            i = i + 8;
            last_match = i;
            proof {
                lemma_after(
                    before,
                    quoted(db_name@),
                    filled(statement@.skip(i as int), db_name@, params_left),
                );
                assert(text@ + statement@.subrange(last_match as int, i as int) =~= before + quoted(
                    db_name@,
                ));
            }
        } else if params.is_some() && chars[i] == '?' {
            match params {
                Some(values) => {
                    if used >= values.len() {
                        return Err(MissingArgument { index: used });
                    }
                    text.append(statement.substring_char(last_match, i));
                    assert(text@ =~= before);
                    text.append(values[used].as_str());
                    i = i + 1;
                    last_match = i;
                    used = used + 1;
                    proof {
                        assert(params_left->Given_0[used - 1] == values@[used - 1]@);
                        lemma_after(
                            before,
                            values@[used - 1]@,
                            filled(
                                statement@.skip(i as int),
                                db_name@,
                                positional(given, used as nat),
                            ),
                        );
                        assert(text@ + statement@.subrange(last_match as int, i as int) =~= before
                            + values@[used - 1]@);
                    }
                },
                None => {},
            }
        } else {
            i = i + 1;
            proof {
                lemma_after(
                    before,
                    seq![rest[0]],
                    filled(statement@.skip(i as int), db_name@, params_left),
                );
                assert(text@ + statement@.subrange(last_match as int, i as int) =~= before
                    + seq![rest[0]]);
            }
        }
    }
    let ghost before = text@;
    text.append(statement.substring_char(last_match, chars.len()));
    proof {
        let end = Seq::<char>::empty();
        assert(text@ + end =~= before + statement@.subrange(last_match as int, i as int));
        assert(text@ + end =~= text@);
    }
    Ok(text)
}

/// A statement that is ready for the text protocol.
#[derive(Debug)]
pub struct TextStatement {
    pub text: String,
    /// Whether it is longer, in bytes, than a statement usually is.
    pub is_large: bool,
}

/// Fills in the database and the parameters of a statement, so that it can be sent with the text
/// protocol. Parameters that the statement does not ask for are ignored.
pub fn format_mysql_text_protocol(
    db_name: &str,
    statement: &str,
    params: Vec<MySqlValue>,
    large_statement_threshold: usize,
) -> (formatted: Result<TextStatement, MissingArgument>)
    ensures
        match formatted {
            Ok(formatted) => {
                &&& filled(statement@, db_name@, Positional::Given(value_texts(params@), 0)) == Ok::<
                    Seq<char>,
                    nat,
                >(formatted.text@)
                &&& formatted.is_large == (encode_utf8(formatted.text@).len()
                    > large_statement_threshold)
            },
            Err(missing) => filled(
                statement@,
                db_name@,
                Positional::Given(value_texts(params@), 0),
            ) == Err::<Seq<char>, nat>(missing.index as nat),
        },
{
    let mut values: Vec<String> = Vec::new();
    let mut i: usize = 0;
    while i < params.len()
        invariant
            i <= params.len(),
            values.len() == i,
            forall|k: int| 0 <= k < i ==> (#[trigger] values@[k])@ == value_text(params@[k]@),
        decreases params.len() - i,
    {
        values.push(format_value(&params[i]));
        i = i + 1;
    }
    assert(values@.map_values(|param: String| param@) =~= value_texts(params@));
    match fill(statement, db_name, Some(&values)) {
        Ok(text) => {
            let is_large = text.as_str().as_bytes().len() > large_statement_threshold;
            Ok(TextStatement { text, is_large })
        },
        Err(missing) => Err(missing),
    }
}

/// Fills in the database of a statement and leaves its parameters alone, so that it can be sent
/// with the binary protocol.
pub fn format_mysql_binary_protocol(db_name: &str, statement: &str) -> (formatted: String)
    ensures
        filled(statement@, db_name@, Positional::LeftAlone) == Ok::<Seq<char>, nat>(formatted@),
{
    proof {
        parameters_left_alone_are_never_missing(statement@, db_name@);
    }
    match fill(statement, db_name, None) {
        Ok(text) => text,
        Err(_) => String::new(),
    }
}

/// A statement whose parameters are left to the server can always be filled in.
pub proof fn parameters_left_alone_are_never_missing(statement: Seq<char>, db_name: Seq<char>)
    ensures
        filled(statement, db_name, Positional::LeftAlone) is Ok,
    decreases statement.len(),
{
    if statement.len() > 0 {
        if occurs_at(statement, "@db_name"@, 0) && "@db_name"@.len() > 0 {
            parameters_left_alone_are_never_missing(
                statement.skip("@db_name"@.len() as int),
                db_name,
            );
        } else {
            parameters_left_alone_are_never_missing(statement.skip(1), db_name);
        }
    }
}

/// How many parameters a statement asks for.
pub open spec fn parameters_asked(statement: Seq<char>) -> nat
    decreases statement.len(),
{
    if statement.len() == 0 {
        0
    } else {
        (if statement[0] == '?' {
            1nat
        } else {
            0nat
        }) + parameters_asked(statement.skip(1))
    }
}

proof fn lemma_asked_after(statement: Seq<char>, n: nat)
    requires
        n <= statement.len(),
        forall|i: int| 0 <= i < n ==> statement[i] != '?',
    ensures
        parameters_asked(statement) == parameters_asked(statement.skip(n as int)),
    decreases n,
{
    if n > 0 {
        assert(statement.skip(1).skip(n - 1) =~= statement.skip(n as int));
        lemma_asked_after(statement.skip(1), (n - 1) as nat);
    } else {
        assert(statement.skip(0) =~= statement);
    }
}

/// A statement can be filled in exactly if it is given as many parameters as it asks for, or more;
/// otherwise the first one that is missing is named.
pub proof fn enough_parameters_are_enough(
    statement: Seq<char>,
    db_name: Seq<char>,
    params: Seq<Seq<char>>,
    used: nat,
)
    requires
        used <= params.len(),
    ensures
        ({
            let text = filled(statement, db_name, Positional::Given(params, used));
            &&& text is Ok <==> used + parameters_asked(statement) <= params.len()
            &&& text is Err ==> text->Err_0 == params.len()
        }),
    decreases statement.len(),
{
    if statement.len() > 0 {
        if occurs_at(statement, "@db_name"@, 0) && "@db_name"@.len() > 0 {
            let width = "@db_name"@.len();
            assert forall|i: int| 0 <= i < width implies statement[i] != '?' by {
                reveal_strlit("@db_name");
                assert(statement.subrange(0, width as int)[i] == "@db_name"@[i]);
            }
            lemma_asked_after(statement, width);
            enough_parameters_are_enough(statement.skip(width as int), db_name, params, used);
        } else if statement[0] == '?' {
            if used < params.len() {
                enough_parameters_are_enough(statement.skip(1), db_name, params, used + 1);
            }
        } else {
            enough_parameters_are_enough(statement.skip(1), db_name, params, used);
        }
    }
}

/// Parameters past those that a statement asks for change nothing.
pub proof fn further_parameters_are_ignored(
    statement: Seq<char>,
    db_name: Seq<char>,
    params: Seq<Seq<char>>,
    further: Seq<Seq<char>>,
    used: nat,
)
    requires
        used <= params.len(),
        filled(statement, db_name, Positional::Given(params, used)) is Ok,
    ensures
        filled(statement, db_name, Positional::Given(params + further, used)) == filled(
            statement,
            db_name,
            Positional::Given(params, used),
        ),
    decreases statement.len(),
{
    if statement.len() > 0 {
        if occurs_at(statement, "@db_name"@, 0) && "@db_name"@.len() > 0 {
            further_parameters_are_ignored(
                statement.skip("@db_name"@.len() as int),
                db_name,
                params,
                further,
                used,
            );
        } else if statement[0] == '?' {
            assert((params + further)[used as int] == params[used as int]);
            further_parameters_are_ignored(
                statement.skip(1),
                db_name,
                params,
                further,
                used + 1,
            );
        } else {
            further_parameters_are_ignored(statement.skip(1), db_name, params, further, used);
        }
    }
}

/// A statement that names neither its database nor a parameter stays as it is.
pub proof fn plain_statements_stay(statement: Seq<char>, db_name: Seq<char>, params: Positional)
    requires
        forall|i: int| 0 <= i < statement.len() ==> statement[i] != '@' && statement[i] != '?',
    ensures
        filled(statement, db_name, params) == Ok::<Seq<char>, nat>(statement),
    decreases statement.len(),
{
    if statement.len() > 0 {
        assert(!occurs_at(statement, "@db_name"@, 0) || "@db_name"@.len() == 0) by {
            reveal_strlit("@db_name");
            if occurs_at(statement, "@db_name"@, 0) {
                assert(statement.subrange(0, "@db_name"@.len() as int)[0] == '@');
            }
        }
        plain_statements_stay(statement.skip(1), db_name, params);
        assert(seq![statement[0]] + statement.skip(1) =~= statement);
    } else {
        assert(statement =~= Seq::<char>::empty());
    }
}

/// Bytes are written with digits alone, so that nothing in them can end the literal.
pub proof fn bytes_are_written_as_digits(bytes: Seq<u8>, i: int)
    requires
        0 <= i < lower_hex(bytes).len(),
    ensures
        '0' <= lower_hex(bytes)[i] <= '9' || 'a' <= lower_hex(bytes)[i] <= 'f',
{
}

proof fn lemma_plain_prefix(
    plain: Seq<char>,
    rest: Seq<char>,
    db_name: Seq<char>,
    params: Positional,
)
    requires
        forall|i: int| 0 <= i < plain.len() ==> plain[i] != '@' && plain[i] != '?',
    ensures
        filled(plain + rest, db_name, params) == after(plain, filled(rest, db_name, params)),
    decreases plain.len(),
{
    let statement = plain + rest;
    if plain.len() > 0 {
        assert(!occurs_at(statement, "@db_name"@, 0) || "@db_name"@.len() == 0) by {
            reveal_strlit("@db_name");
            if occurs_at(statement, "@db_name"@, 0) {
                assert(statement.subrange(0, "@db_name"@.len() as int)[0] == '@');
                assert(statement[0] == plain[0]);
            }
        }
        assert(statement[0] == plain[0]);
        assert(statement.skip(1) =~= plain.skip(1) + rest);
        lemma_plain_prefix(plain.skip(1), rest, db_name, params);
        lemma_after(seq![plain[0]], plain.skip(1), filled(rest, db_name, params));
        assert(seq![plain[0]] + plain.skip(1) =~= plain);
    } else {
        assert(statement =~= rest);
        let tail = filled(rest, db_name, params);
        if tail is Ok {
            assert(plain + tail->Ok_0 =~= tail->Ok_0);
        }
    }
}

/// Where a statement names its database, the name of the database stands instead, between backticks;
/// what is before it stays, and what is after it is filled in on its own.
pub proof fn the_database_is_named_where_it_is_asked_for(
    plain: Seq<char>,
    rest: Seq<char>,
    db_name: Seq<char>,
    params: Positional,
)
    requires
        forall|i: int| 0 <= i < plain.len() ==> plain[i] != '@' && plain[i] != '?',
    ensures
        filled(plain + "@db_name"@ + rest, db_name, params) == after(
            plain + ("`"@ + db_name + "`"@),
            filled(rest, db_name, params),
        ),
{
    let named = "@db_name"@ + rest;
    reveal_strlit("@db_name");
    assert(plain + "@db_name"@ + rest =~= plain + named);
    lemma_plain_prefix(plain, named, db_name, params);
    assert(named.subrange(0, "@db_name"@.len() as int) =~= "@db_name"@);
    assert(named.skip("@db_name"@.len() as int) =~= rest);
    assert(occurs_at(named, "@db_name"@, 0));
    lemma_after(plain, quoted(db_name), filled(rest, db_name, params));
}

/// Each question mark takes the next parameter, as it is written, in the order in which they were
/// given; one without a parameter left is missing, and named by its number. Where the parameters are
/// left to the server the question mark stays.
pub proof fn question_marks_take_the_parameters_in_order(
    plain: Seq<char>,
    rest: Seq<char>,
    db_name: Seq<char>,
    params: Seq<Seq<char>>,
    used: nat,
)
    requires
        forall|i: int| 0 <= i < plain.len() ==> plain[i] != '@' && plain[i] != '?',
    ensures
        used < params.len() ==> filled(
            plain + seq!['?'] + rest,
            db_name,
            Positional::Given(params, used),
        ) == after(
            plain + params[used as int],
            filled(rest, db_name, Positional::Given(params, used + 1)),
        ),
        used >= params.len() ==> filled(
            plain + seq!['?'] + rest,
            db_name,
            Positional::Given(params, used),
        ) == Err::<Seq<char>, nat>(used),
        filled(plain + seq!['?'] + rest, db_name, Positional::LeftAlone) == after(
            plain + seq!['?'],
            filled(rest, db_name, Positional::LeftAlone),
        ),
{
    let marked = seq!['?'] + rest;
    reveal_strlit("@db_name");
    assert(plain + seq!['?'] + rest =~= plain + marked);
    assert(marked[0] == '?');
    assert(marked.skip(1) =~= rest);
    assert(!occurs_at(marked, "@db_name"@, 0)) by {
        if occurs_at(marked, "@db_name"@, 0) {
            assert(marked.subrange(0, "@db_name"@.len() as int)[0] == '@');
        }
    }
    lemma_plain_prefix(plain, marked, db_name, Positional::Given(params, used));
    lemma_plain_prefix(plain, marked, db_name, Positional::LeftAlone);
    if used < params.len() {
        lemma_after(
            plain,
            params[used as int],
            filled(rest, db_name, Positional::Given(params, used + 1)),
        );
    }
    lemma_after(plain, seq!['?'], filled(rest, db_name, Positional::LeftAlone));
}

/// What a hexadecimal digit stands for.
pub open spec fn hex_value(c: char) -> int {
    if '0' <= c <= '9' {
        c as int - '0' as int
    } else {
        c as int - 'a' as int + 10
    }
}

/// A byte reads back from its two digits, of which the first counts sixteen times as much.
pub proof fn bytes_read_back_from_their_digits(bytes: Seq<u8>, i: int)
    requires
        0 <= i < bytes.len(),
    ensures
        lower_hex(bytes).len() == 2 * bytes.len(),
        16 * hex_value(lower_hex(bytes)[2 * i]) + hex_value(lower_hex(bytes)[2 * i + 1])
            == bytes[i],
{
    assert((2 * i) / 2 == i && (2 * i + 1) / 2 == i);
    assert((2 * i) % 2 == 0 && (2 * i + 1) % 2 == 1);
}

/// A number is written with its sign: a negative one is a minus sign and what it is without it.
pub proof fn numbers_are_written_with_their_sign(n: nat)
    ensures
        n > 0 ==> value_text(ValueView::Int(-(n as int))) == seq!['-'] + value_text(
            ValueView::UInt(n),
        ),
        value_text(ValueView::Int(n as int)) == value_text(ValueView::UInt(n)),
        crate::number::digits_value(value_text(ValueView::UInt(n))) == n,
        value_text(ValueView::NULL) == "NULL"@,
{
    crate::number::decimal_stands_for(n);
}

} // verus!
