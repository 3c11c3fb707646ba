//! Channel-routing directives: parsing and validation of the
//! `channel:port[?]` arguments that patch an output port into a meter
//! channel before the core starts.
//!
//! The channel number is 1-based and must not exceed the configured
//! channel count; everything after the first `:` names the port; a
//! trailing `?` marks the connection optional. The errors keep the
//! checking order of the argument surface: the number is judged first,
//! the separator second, the range last.

use vstd::prelude::*;

verus! {

/// A validated routing directive: connect the output port named by the
/// UTF-8 bytes `port` to meter channel `channel` (1-based). `optional`
/// records a trailing `?`: a failure to connect must not abort startup.
#[derive(Debug, PartialEq, Eq)]
pub struct Directive {
    pub channel: usize,
    pub port: Vec<u8>,
    pub optional: bool,
}

/// Why an argument is not a directive.
#[derive(Clone, Copy, PartialEq, Eq, Structural, Debug)]
pub enum DirectiveError {
    /// The text before the first `:` is not a number a machine word holds.
    MalformedChannelNumber,
    /// No `:` separates the channel number from a port name.
    MissingPort,
    /// The channel number is outside `1..=channels`.
    ChannelOutOfRange,
}

/// ASCII `:`, separating the channel number from the port name.
pub const COLON: u8 = 58;

/// ASCII `?`, the trailing marker for an optional connection.
pub const OPT_MARKER: u8 = 63;

/// ASCII `0`.
pub const DIGIT_0: u8 = 48;

/// ASCII `9`.
pub const DIGIT_9: u8 = 57;

/// An ASCII decimal digit.
pub open spec fn is_digit(b: u8) -> bool {
    DIGIT_0 <= b <= DIGIT_9
}

/// The numeric value of one digit byte.
pub open spec fn digit_val(b: u8) -> nat {
    (b - DIGIT_0) as nat
}

/// The number a run of digit bytes spells in decimal, most significant
/// first.
pub open spec fn digits_value(s: Seq<u8>) -> nat
    decreases s.len(),
{
    if s.len() == 0 {
        0nat
    } else {
        digits_value(s.drop_last()) * 10 + digit_val(s.last())
    }
}

/// A non-empty run of decimal digits.
pub open spec fn is_number(s: Seq<u8>) -> bool {
    s.len() > 0 && forall|i: int| 0 <= i < s.len() ==> is_digit(#[trigger] s[i])
}

/// Whether the argument ends with the optional marker `?`.
pub open spec fn has_opt_marker(arg: Seq<u8>) -> bool {
    arg.len() > 0 && arg.last() == OPT_MARKER
}

/// The argument with any optional marker removed.
pub open spec fn body_of(arg: Seq<u8>) -> Seq<u8> {
    if has_opt_marker(arg) {
        arg.drop_last()
    } else {
        arg
    }
}

/// Whether the body holds a `:` separator at all.
pub open spec fn has_colon(s: Seq<u8>) -> bool {
    exists|i: int| 0 <= i < s.len() && s[i] == COLON
}

/// Everything before the first `:`, or the whole body when it has none.
pub open spec fn number_part(s: Seq<u8>) -> Seq<u8>
    decreases s.len(),
{
    if s.len() == 0 {
        s
    } else if s[0] == COLON {
        Seq::empty()
    } else {
        seq![s[0]] + number_part(s.drop_first())
    }
}

/// Everything after the first `:`; empty when the body has none.
pub open spec fn port_part(s: Seq<u8>) -> Seq<u8>
    decreases s.len(),
{
    if s.len() == 0 {
        Seq::empty()
    } else if s[0] == COLON {
        s.drop_first()
    } else {
        port_part(s.drop_first())
    }
}

/// A first colon at `k` splits the body into the number prefix and the
/// port suffix.
proof fn lemma_colon_split(s: Seq<u8>, k: int)
    requires
        0 <= k < s.len(),
        s[k] == COLON,
        forall|j: int| 0 <= j < k ==> s[j] != COLON,
    ensures
        has_colon(s),
        number_part(s) == s.take(k),
        port_part(s) == s.skip(k + 1),
    decreases k,
{
    if k == 0 {
        assert(number_part(s) =~= s.take(0));
        assert(port_part(s) =~= s.skip(1));
    } else {
        lemma_colon_split(s.drop_first(), k - 1);
        assert(seq![s[0]] + s.drop_first().take(k - 1) =~= s.take(k));
        assert(s.drop_first().skip(k) =~= s.skip(k + 1));
    }
}

/// A body without a colon is all number part.
proof fn lemma_no_colon(s: Seq<u8>)
    requires
        forall|j: int| 0 <= j < s.len() ==> s[j] != COLON,
    ensures
        !has_colon(s),
        number_part(s) == s,
    decreases s.len(),
{
    if s.len() > 0 {
        lemma_no_colon(s.drop_first());
        assert(seq![s[0]] + s.drop_first() =~= s);
    }
}

/// Reading more digits never shrinks the value.
proof fn lemma_digits_prefix_le(s: Seq<u8>, k: int)
    requires
        0 <= k <= s.len(),
        forall|i: int| 0 <= i < s.len() ==> is_digit(#[trigger] s[i]),
    ensures
        digits_value(s.take(k)) <= digits_value(s),
    decreases s.len() - k,
{
    if k == s.len() {
        assert(s.take(k) =~= s);
    } else {
        assert(s.take(k + 1).drop_last() =~= s.take(k));
        lemma_digits_prefix_le(s, k + 1);
    }
}

/// Parse one routing argument against the configured channel count.
/// Success and each error are pinned to the argument's bytes: `Ok` exactly
/// when the part before the first `:` of the (unmarked) body is a number a
/// machine word holds, a `:` is present, and the number is in range.
#[verifier::loop_isolation(false)]
pub fn parse_directive(arg: &Vec<u8>, channels: usize) -> (r: Result<Directive, DirectiveError>)
    ensures
        ({
            let body = body_of(arg@);
            let num = number_part(body);
            let value = digits_value(num);
            match r {
                Ok(d) => {
                    &&& is_number(num)
                    &&& value <= usize::MAX
                    &&& has_colon(body)
                    &&& 1 <= value <= channels
                    &&& d.channel == value
                    &&& d.port@ == port_part(body)
                    &&& d.optional == has_opt_marker(arg@)
                },
                Err(DirectiveError::MalformedChannelNumber) => !(is_number(num) && value
                    <= usize::MAX),
                Err(DirectiveError::MissingPort) => {
                    &&& is_number(num)
                    &&& value <= usize::MAX
                    &&& !has_colon(body)
                },
                Err(DirectiveError::ChannelOutOfRange) => {
                    &&& is_number(num)
                    &&& value <= usize::MAX
                    &&& has_colon(body)
                    &&& !(1 <= value <= channels)
                },
            }
        }),
{
    let n = arg.len();
    let optional = n > 0 && arg[n - 1] == OPT_MARKER;
    let body_len = if optional {
        n - 1
    } else {
        n
    };
    let ghost body = body_of(arg@);
    proof {
        assert(body =~= arg@.take(body_len as int));
    }
    // The number part runs to the first colon of the body, if any.
    let mut i: usize = 0;
    while i < body_len && arg[i] != COLON
        invariant
            i <= body_len <= arg@.len(),
            forall|j: int| 0 <= j < i ==> arg@[j] != COLON,
        decreases body_len - i,
    {
        i = i + 1;
    }
    let limit = i;
    let ghost num = number_part(body);
    proof {
        if limit < body_len {
            lemma_colon_split(body, limit as int);
        } else {
            lemma_no_colon(body);
        }
        assert(num =~= arg@.subrange(0, limit as int));
    }
    // Judge the number first, as the argument surface does.
    if limit == 0 {
        return Err(DirectiveError::MalformedChannelNumber);
    }
    let mut j: usize = 0;
    while j < limit
        invariant
            j <= limit <= arg@.len(),
            num =~= arg@.subrange(0, limit as int),
            forall|p: int| 0 <= p < j ==> is_digit(#[trigger] arg@[p]),
        decreases limit - j,
    {
        let b = arg[j];
        if b < DIGIT_0 || b > DIGIT_9 {
            proof {
                assert(num[j as int] == arg@[j as int]);
                assert(!is_digit(num[j as int]));
            }
            return Err(DirectiveError::MalformedChannelNumber);
        }
        j = j + 1;
    }
    let mut value: usize = 0;
    j = 0;
    while j < limit
        invariant
            j <= limit <= arg@.len(),
            num =~= arg@.subrange(0, limit as int),
            forall|p: int| 0 <= p < limit ==> is_digit(#[trigger] arg@[p]),
            value == digits_value(arg@.subrange(0, j as int)),
        decreases limit - j,
    {
        let d = (arg[j] - DIGIT_0) as usize;
        proof {
            assert(arg@.subrange(0, j + 1).drop_last() =~= arg@.subrange(0, j as int));
            assert(num.take(j + 1) =~= arg@.subrange(0, j + 1));
            assert forall|q: int| 0 <= q < num.len() implies is_digit(#[trigger] num[q]) by {
                assert(num[q] == arg@[q]);
            }
        }
        let scaled = match value.checked_mul(10) {
            Some(v) => v,
            None => {
                proof {
                    lemma_digits_prefix_le(num, j + 1);
                    assert(digits_value(num) > usize::MAX);
                }
                return Err(DirectiveError::MalformedChannelNumber);
            },
        };
        value = match scaled.checked_add(d) {
            Some(v) => v,
            None => {
                proof {
                    lemma_digits_prefix_le(num, j + 1);
                    assert(digits_value(num) > usize::MAX);
                }
                return Err(DirectiveError::MalformedChannelNumber);
            },
        };
        j = j + 1;
    }
    // Then the separator, then the range.
    if limit == body_len {
        return Err(DirectiveError::MissingPort);
    }
    if value < 1 || value > channels {
        return Err(DirectiveError::ChannelOutOfRange);
    }
    let mut port: Vec<u8> = Vec::new();
    let mut p: usize = limit + 1;
    while p < body_len
        invariant
            limit + 1 <= p <= body_len <= arg@.len(),
            port@ =~= arg@.subrange(limit + 1, p as int),
        decreases body_len - p,
    {
        port.push(arg[p]);
        proof {
            assert(arg@.subrange(limit + 1, p + 1) =~= arg@.subrange(limit + 1, p as int).push(
                arg@[p as int],
            ));
        }
        p = p + 1;
    }
    proof {
        assert(port_part(body) =~= arg@.subrange(limit + 1, body_len as int));
    }
    Ok(Directive { channel: value, port, optional })
}

} // verus!
