//! The configuration of event writers and the names of their files.

use crate::error::Error;
use vstd::prelude::*;

verus! {

/// The event writer initializer.
#[derive(Debug, Clone, PartialEq, Eq, Hash, Structural)]
pub struct EventWriterConfig {
    /// If set, the writer flushes the buffer after writing a event.
    pub auto_flush: bool,
}

impl Default for EventWriterConfig {
    fn default() -> (r: Self)
        ensures
            r.auto_flush,
    {
        Self { auto_flush: true }
    }
}

/// A summary initializer holding the tag of the summary.
#[derive(Debug, Clone, PartialEq)]
pub struct SummaryInit<T> {
    /// The tag of the summary.
    pub tag: T,
}

impl<T> SummaryInit<T> {
    /// Create an initializer with a tag.
    pub fn new(tag: T) -> (r: Self)
        ensures
            r.tag == tag,
    {
        Self { tag }
    }
}

/// The decimal digit of a number below ten.
pub open spec fn digit_char(d: nat) -> char {
    if d == 0 {
        '0'
    } else if d == 1 {
        '1'
    } else if d == 2 {
        '2'
    } else if d == 3 {
        '3'
    } else if d == 4 {
        '4'
    } else if d == 5 {
        '5'
    } else if d == 6 {
        '6'
    } else if d == 7 {
        '7'
    } else if d == 8 {
        '8'
    } else {
        '9'
    }
}

/// The decimal notation of a number, without leading zeros.
pub open spec fn spec_decimal(n: nat) -> Seq<char>
    decreases n,
{
    if n < 10 {
        seq![digit_char(n)]
    } else {
        spec_decimal(n / 10) + seq![digit_char(n % 10)]
    }
}

/// The number that decimal digits stand for, most significant first.
pub open spec fn decimal_value(digits: Seq<char>) -> int
    decreases digits.len(),
{
    if digits.len() == 0 {
        0
    } else {
        decimal_value(digits.drop_last()) * 10 + (digits.last() as int - '0' as int)
    }
}

/// The decimal notation of a number is made of the digits `0` to `9`,
/// starts with `0` only for zero itself, and reads back as the number.
pub proof fn law_decimal_reads_back(n: nat)
    ensures
        spec_decimal(n).len() >= 1,
        forall|i: int| 0 <= i < spec_decimal(n).len() ==> '0' <= #[trigger] spec_decimal(n)[i] <= '9',
        spec_decimal(n)[0] == '0' ==> n == 0,
        decimal_value(spec_decimal(n)) == n,
    decreases n,
{
    if n >= 10 {
        law_decimal_reads_back(n / 10);
        let d = spec_decimal(n);
        let prev = spec_decimal(n / 10);
        assert(d.drop_last() =~= prev);
        assert forall|i: int| 0 <= i < d.len() implies '0' <= #[trigger] d[i] <= '9' by {
            if i < prev.len() {
                assert(d[i] == prev[i]);
            }
        }
        assert(d[0] == prev[0]);
        lemma_digit_value(n % 10);
        assert(d.last() == digit_char(n % 10));
        assert(n == (n / 10) * 10 + n % 10);
    } else {
        assert(spec_decimal(n).drop_last() =~= Seq::<char>::empty());
        assert(decimal_value(Seq::<char>::empty()) == 0);
        lemma_digit_value(n);
    }
}

/// A digit stands for its number.
proof fn lemma_digit_value(d: nat)
    requires
        d < 10,
    ensures
        digit_char(d) as int - '0' as int == d,
        '0' <= digit_char(d) <= '9',
{
}

/// The text of one decimal digit.
fn digit_str(d: u128) -> (r: &'static str)
    requires
        d < 10,
    ensures
        r@ == seq![digit_char(d as nat)],
{
    proof {
        reveal_strlit("0");
        reveal_strlit("1");
        reveal_strlit("2");
        reveal_strlit("3");
        reveal_strlit("4");
        reveal_strlit("5");
        reveal_strlit("6");
        reveal_strlit("7");
        reveal_strlit("8");
        reveal_strlit("9");
    }
    if d == 0 {
        "0"
    } else if d == 1 {
        "1"
    } else if d == 2 {
        "2"
    } else if d == 3 {
        "3"
    } else if d == 4 {
        "4"
    } else if d == 5 {
        "5"
    } else if d == 6 {
        "6"
    } else if d == 7 {
        "7"
    } else if d == 8 {
        "8"
    } else {
        "9"
    }
}

/// Append the decimal notation of `n` to `text`.
fn append_decimal(text: &mut String, n: u128)
    ensures
        final(text)@ == old(text)@ + spec_decimal(n as nat),
    decreases n,
{
    if n >= 10 {
        append_decimal(text, n / 10);
    }
    text.append(digit_str(n % 10));
    proof {
        assert(final(text)@ =~= old(text)@ + spec_decimal(n as nat));
    }
}

/// The decimal notation of a number.
pub fn decimal_string(n: u128) -> (r: String)
    ensures
        r@ == spec_decimal(n as nat),
{
    let mut text = String::new();
    append_decimal(&mut text, n);
    proof {
        assert(text@ =~= spec_decimal(n as nat));
    }
    text
}

/// The file name of a TensorBoard event file:
/// `{file_name_prefix}.out.tfevents.{timestamp}.{host_name}{file_name_suffix}`,
/// with the timestamp in decimal. The `prefix` that the file-name prefix
/// was taken from must not be empty.
pub fn create_tf_style_file_name(
    prefix: &str,
    file_name_prefix: &str,
    timestamp: u128,
    host_name: &str,
    file_name_suffix: &str,
) -> (r: Result<String, Error>)
    ensures
        prefix@.len() == 0 ==> (r matches Err(Error::ConversionError { desc }) && desc@
            == "the prefix must not be empty"@),
        prefix@.len() > 0 ==> (r matches Ok(name) && name@ == file_name_prefix@ + ".out.tfevents."@
            + spec_decimal(timestamp as nat) + "."@ + host_name@ + file_name_suffix@),
{
    if prefix.unicode_len() == 0 {
        return Err(Error::invalid_argument(String::from_str("the prefix must not be empty")));
    }
    let mut name = String::from_str(file_name_prefix);
    name.append(".out.tfevents.");
    let digits = decimal_string(timestamp);
    name.append(digits.as_str());
    name.append(".");
    name.append(host_name);
    name.append(file_name_suffix);
    Ok(name)
}

} // verus!
