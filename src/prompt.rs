use vstd::prelude::*;

verus! {

/// The text without its leading and trailing whitespace.
pub uninterp spec fn trimmed(s: Seq<char>) -> Seq<char>;

/// The text with every character lowered.
pub uninterp spec fn lowered(s: Seq<char>) -> Seq<char>;

/// Relies on std's `str::trim`: the text without leading and trailing
/// whitespace, a function of the text alone.
#[verifier::external_body]
fn trim_text(s: &str) -> (r: &str)
    ensures
        r@ == trimmed(s@),
{
    s.trim()
}

/// Relies on std's `str::to_lowercase`: the lowercase mapping of the text,
/// a function of the text alone.
#[verifier::external_body]
fn lowercase_text(s: &str) -> (r: String)
    ensures
        r@ == lowered(s@),
{
    s.to_lowercase()
}

/// Whether a trimmed, lowered answer accepts: it starts with `y`.
pub fn accepts(answer: &str) -> (r: bool)
    ensures
        r == (answer@.len() > 0 && answer@[0] == 'y'),
{
    answer.unicode_len() > 0 && answer.get_char(0) == 'y'
}

/// Whether a typed answer to a yes/no question accepts: once trimmed and
/// lowered it starts with `y`. Anything else, an empty answer included,
/// declines.
pub fn is_affirmative(answer: &str) -> (r: bool)
    ensures
        r == (lowered(trimmed(answer@)).len() > 0 && lowered(trimmed(answer@))[0] == 'y'),
{
    let t = trim_text(answer);
    let lower = lowercase_text(t);
    accepts(lower.as_str())
}

/// The name of a new record from the trimmed text the user typed: that
/// text, or `default_name` when it is empty.
pub fn name_or_default(typed: &str, default_name: &str) -> (r: String)
    ensures
        r@ == if typed@.len() == 0 {
            default_name@
        } else {
            typed@
        },
{
    if typed.unicode_len() == 0 {
        String::from_str(default_name)
    } else {
        String::from_str(typed)
    }
}

/// The name of a new record from what the user typed: the typed text
/// trimmed, or `default_name` when nothing but whitespace was typed.
pub fn entry_name(typed: &str, default_name: &str) -> (r: String)
    ensures
        r@ == if trimmed(typed@).len() == 0 {
            default_name@
        } else {
            trimmed(typed@)
        },
{
    name_or_default(trim_text(typed), default_name)
}

} // verus!
