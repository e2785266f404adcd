//! Small formatting utilities: decimal numbers, `HH:MM:SS` timestamps and
//! the System Settings URL.
use vstd::prelude::*;

verus! {

/// Calls `String::push`.
///
/// Trusted: the character is appended to the end of the string, as the
/// function's documentation says.
#[verifier::external_body]
pub(crate) fn push_char(s: &mut String, c: char)
    ensures
        final(s)@ == old(s)@.push(c),
{
    s.push(c);
}

/// What `{:?}` prints for the text `s`: the text quoted and escaped by
/// std's `Debug` for `str`.
pub uninterp spec fn str_debug(s: Seq<char>) -> Seq<char>;

/// Formats `s` with `{:?}`, the `Debug` implementation of `str`.
///
/// Trusted: the result is the named `str_debug(s)`, a function of the text
/// alone; how std quotes and escapes it is left to std.
#[verifier::external_body]
pub(crate) fn str_debug_text(s: &str) -> (r: String)
    ensures
        r@ == str_debug(s@),
{
    format!("{:?}", s)
}

/// The decimal digit character for `d < 10`.
pub open spec fn digit_char(d: nat) -> char {
    if d == 0 { '0' }
    else if d == 1 { '1' }
    else if d == 2 { '2' }
    else if d == 3 { '3' }
    else if d == 4 { '4' }
    else if d == 5 { '5' }
    else if d == 6 { '6' }
    else if d == 7 { '7' }
    else if d == 8 { '8' }
    else { '9' }
}

/// The decimal representation of `n`, without leading zeros
/// (what `{}` prints for an unsigned integer).
pub open spec fn decimal(n: nat) -> Seq<char>
    decreases n,
{
    if n < 10 {
        seq![digit_char(n)]
    } else {
        decimal(n / 10).push(digit_char(n % 10))
    }
}

/// The decimal representation of `n`, zero-padded to at least two digits
/// (what `{:02}` prints for an unsigned integer).
pub open spec fn two_digits(n: nat) -> Seq<char> {
    if n < 10 {
        seq!['0', digit_char(n)]
    } else {
        decimal(n)
    }
}

/// `HH:MM:SS` for a number of seconds: hours (at least two digits, not
/// wrapped at a day), minutes and seconds.
pub open spec fn timestamp_text(total: nat) -> Seq<char> {
    two_digits(total / 3600) + seq![':'] + two_digits((total % 3600) / 60) + seq![':'] + two_digits(total % 60)
}

/// The digit character for `d`.
fn digit(d: u64) -> (c: char)
    requires
        d < 10,
    ensures
        c == digit_char(d as nat),
{
    if d == 0 { '0' }
    else if d == 1 { '1' }
    else if d == 2 { '2' }
    else if d == 3 { '3' }
    else if d == 4 { '4' }
    else if d == 5 { '5' }
    else if d == 6 { '6' }
    else if d == 7 { '7' }
    else if d == 8 { '8' }
    else { '9' }
}

/// Appends the decimal representation of `n` to `s`.
pub fn push_decimal(s: &mut String, n: u64)
    ensures
        final(s)@ == old(s)@ + decimal(n as nat),
    decreases n,
{
    if n < 10 {
        push_char(s, digit(n));
        assert(old(s)@.push(digit_char(n as nat)) =~= old(s)@ + decimal(n as nat));
    } else {
        push_decimal(s, n / 10);
        push_char(s, digit(n % 10));
        assert(old(s)@ + decimal((n / 10) as nat) + seq![digit_char((n % 10) as nat)] =~= old(s)@ + decimal(n as nat));
    }
}

/// The decimal representation of `n`.
pub fn decimal_string(n: u64) -> (r: String)
    ensures
        r@ == decimal(n as nat),
{
    let mut s = String::new();
    push_decimal(&mut s, n);
    assert(Seq::<char>::empty() + decimal(n as nat) =~= decimal(n as nat));
    s
}

/// Appends `n` zero-padded to two digits to `s`.
fn push_two_digits(s: &mut String, n: u64)
    ensures
        final(s)@ == old(s)@ + two_digits(n as nat),
{
    if n < 10 {
        push_char(s, '0');
        push_char(s, digit(n));
        assert(old(s)@.push('0').push(digit_char(n as nat)) =~= old(s)@ + two_digits(n as nat));
    } else {
        push_decimal(s, n);
    }
}

/// Formats a whole number of seconds as `HH:MM:SS`.
///
/// `3725` gives `"01:02:05"`; hours are not wrapped at a day, so `360000`
/// gives `"100:00:00"`.
pub fn format_timestamp_seconds(total_seconds: u64) -> (r: String)
    ensures
        r@ == timestamp_text(total_seconds as nat),
{
    let hours = total_seconds / 3600;
    let minutes = (total_seconds % 3600) / 60;
    let secs = total_seconds % 60;
    let mut s = String::new();
    push_two_digits(&mut s, hours);
    push_char(&mut s, ':');
    push_two_digits(&mut s, minutes);
    push_char(&mut s, ':');
    push_two_digits(&mut s, secs);
    assert(s@ =~= timestamp_text(total_seconds as nat));
    s
}

/// Zero padding of a number below a hundred keeps exactly two digits, and
/// the number is recovered from them.
pub proof fn lemma_two_digits_small(n: nat)
    requires
        n < 100,
    ensures
        two_digits(n).len() == 2,
        two_digits(n) == seq![digit_char(n / 10), digit_char(n % 10)],
{
    if n >= 10 {
        assert(decimal(n / 10) == seq![digit_char(n / 10)]);
        assert(decimal(n) =~= seq![digit_char(n / 10), digit_char(n % 10)]);
    }
}

/// The timestamp splits the seconds into hours, minutes below sixty and
/// seconds below sixty that add back up to the total.
pub proof fn lemma_timestamp_parts(total: nat)
    ensures
        (total % 3600) / 60 < 60,
        total % 60 < 60,
        (total / 3600) * 3600 + ((total % 3600) / 60) * 60 + total % 60 == total,
{
    assert(((total % 3600) / 60) * 60 + (total % 3600) % 60 == total % 3600);
    assert((total % 3600) % 60 == total % 60) by (nonlinear_arith);
    assert((total / 3600) * 3600 + total % 3600 == total);
}

/// The address that opens the Privacy & Security pane of macOS System
/// Settings at `preference_pane`.
pub fn system_settings_url(preference_pane: &str) -> (r: String)
    ensures
        r@ == "x-apple.systempreferences:com.apple.preference.security?"@ + preference_pane@,
{
    let prefix = String::from_str("x-apple.systempreferences:com.apple.preference.security?");
    prefix.concat(preference_pane)
}

} // verus!
