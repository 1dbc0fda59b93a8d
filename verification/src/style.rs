//! The style sheet that carries a window's background color.

use vstd::prelude::*;
use vstd::string::StringExecFns;

verus! {

/// A color: red, green, blue and alpha.
#[derive(Clone, Copy, Debug, PartialEq, Eq, Structural)]
pub struct Color(pub u8, pub u8, pub u8, pub u8);

/// The character of a decimal digit.
pub open spec fn digit(d: int) -> char {
    if d == 0 {
        '0'
    } else if d == 1 {
        '1'
    } else if d == 2 {
        '2'
    } else if d == 3 {
        '3'
    } else if d == 4 {
        '4'
    } else if d == 5 {
        '5'
    } else if d == 6 {
        '6'
    } else if d == 7 {
        '7'
    } else if d == 8 {
        '8'
    } else {
        '9'
    }
}

/// A natural number in decimal digits, without leading zeros.
pub open spec fn decimal(n: nat) -> Seq<char>
    decreases n,
{
    if n < 10 {
        seq![digit(n as int)]
    } else {
        decimal(n / 10).push(digit((n % 10) as int))
    }
}

/// The number of thousandths nearest to `alpha / 255`.
pub open spec fn thousandths(alpha: int) -> int {
    (2000 * alpha + 255) / 510
}

/// An alpha channel as a fraction of one with three decimals.
pub open spec fn opacity(alpha: int) -> Seq<char> {
    let t = thousandths(alpha);
    decimal((t / 1000) as nat) + seq!['.', digit(t / 100 % 10), digit(t / 10 % 10), digit(t % 10)]
}

/// The name of the style class of the window whose host is `xid`.
pub open spec fn class_name(xid: nat) -> Seq<char> {
    "tauri-cef-window-background-"@ + decimal(xid)
}

/// The style sheet that gives a class its background color.
pub open spec fn background_css(class: Seq<char>, color: Color) -> Seq<char> {
    "."@ + class + " { background-color: rgba("@ + decimal(color.0 as nat) + ", "@ + decimal(
        color.1 as nat,
    ) + ", "@ + decimal(color.2 as nat) + ", "@ + opacity(color.3 as int) + "); }"@
}

fn push_digit(text: &mut String, d: u64)
    requires
        d < 10,
    ensures
        final(text)@ == old(text)@.push(digit(d as int)),
{
    proof {
        reveal_strlit("0");
        reveal_strlit("1");
        reveal_strlit("2");
        reveal_strlit("3");
        reveal_strlit("4");
        reveal_strlit("5");
        reveal_strlit("6");
        reveal_strlit("7");
        reveal_strlit("8");
        reveal_strlit("9");
    }
    let character = if d == 0 {
        "0"
    } else if d == 1 {
        "1"
    } else if d == 2 {
        "2"
    } else if d == 3 {
        "3"
    } else if d == 4 {
        "4"
    } else if d == 5 {
        "5"
    } else if d == 6 {
        "6"
    } else if d == 7 {
        "7"
    } else if d == 8 {
        "8"
    } else {
        "9"
    };
    text.append(character);
    assert(text@ =~= old(text)@.push(digit(d as int)));
}

fn push_decimal(text: &mut String, n: u64)
    ensures
        final(text)@ == old(text)@ + decimal(n as nat),
    decreases n,
{
    if n >= 10 {
        push_decimal(text, n / 10);
    }
    push_digit(text, n % 10);
    assert(text@ =~= old(text)@ + decimal(n as nat));
}

fn push_opacity(text: &mut String, alpha: u8)
    ensures
        final(text)@ == old(text)@ + opacity(alpha as int),
{
    let t: u64 = (2000 * alpha as u64 + 255) / 510;
    push_decimal(text, t / 1000);
    proof {
        reveal_strlit(".");
    }
    text.append(".");
    push_digit(text, t / 100 % 10);
    push_digit(text, t / 10 % 10);
    push_digit(text, t % 10);
    assert(text@ =~= old(text)@ + opacity(alpha as int));
}

/// The name of the style class that carries a window's background color. The
/// host's id makes it unique per window: style sheets hold for a whole display.
pub fn background_color_class(xid: u64) -> (class: String)
    ensures
        class@ == class_name(xid as nat),
{
    let mut class = String::new();
    class.append("tauri-cef-window-background-");
    push_decimal(&mut class, xid);
    assert(class@ =~= class_name(xid as nat));
    class
}

/// The style sheet that gives `class` the background `color`.
pub fn background_color_css(class: &String, color: Color) -> (css: String)
    ensures
        css@ == background_css(class@, color),
{
    let mut css = String::new();
    css.append(".");
    css.append(class.as_str());
    css.append(" { background-color: rgba(");
    push_decimal(&mut css, color.0 as u64);
    css.append(", ");
    push_decimal(&mut css, color.1 as u64);
    css.append(", ");
    push_decimal(&mut css, color.2 as u64);
    css.append(", ");
    push_opacity(&mut css, color.3);
    css.append("); }");
    assert(css@ =~= background_css(class@, color));
    css
}

/// The opacity written down is the nearest there is with three decimals, and no
/// alpha lies halfway between two.
pub proof fn opacity_is_nearest(alpha: u8)
    ensures
        -255 < 2 * (1000 * alpha - 255 * thousandths(alpha as int)) < 255,
        0 <= thousandths(alpha as int) <= 1000,
{
    let a = alpha as int;
    let t = thousandths(a);
    vstd::arithmetic::div_mod::lemma_fundamental_div_mod(2000 * a + 255, 510);
}

/// Decimal digits tell numbers apart.
pub proof fn decimal_is_injective(a: nat, b: nat)
    requires
        decimal(a) == decimal(b),
    ensures
        a == b,
    decreases a,
{
    let last_a = decimal(a).last();
    let last_b = decimal(b).last();
    assert(last_a == digit((a % 10) as int));
    assert(last_b == digit((b % 10) as int));
    assert(a % 10 == b % 10);
    if a >= 10 && b >= 10 {
        assert(decimal(a).drop_last() =~= decimal(a / 10));
        assert(decimal(b).drop_last() =~= decimal(b / 10));
        decimal_is_injective(a / 10, b / 10);
    } else {
        decimal_is_not_empty(a / 10);
        decimal_is_not_empty(b / 10);
    }
}

proof fn decimal_is_not_empty(n: nat)
    ensures
        decimal(n).len() >= 1,
{
}

/// Windows with different hosts have different style classes.
pub proof fn class_is_unique_per_host(a: nat, b: nat)
    requires
        class_name(a) == class_name(b),
    ensures
        a == b,
{
    let prefix = "tauri-cef-window-background-"@;
    assert(class_name(a).skip(prefix.len() as int) =~= decimal(a));
    assert(class_name(b).skip(prefix.len() as int) =~= decimal(b));
    decimal_is_injective(a, b);
}

/// The number that a text of decimal digits says.
pub open spec fn number(text: Seq<char>) -> int
    decreases text.len(),
{
    if text.len() == 0 {
        0
    } else {
        10 * number(text.drop_last()) + (text.last() as int - '0' as int)
    }
}

/// The text says the number `n` in decimal digits only, at least one and no zero
/// before the others.
pub open spec fn says(text: Seq<char>, n: int) -> bool {
    &&& text.len() >= 1
    &&& forall|i: int| 0 <= i < text.len() ==> '0' <= #[trigger] text[i] <= '9'
    &&& text.len() > 1 ==> text[0] != '0'
    &&& number(text) == n
}

/// A number that is written down in decimal digits can be read back.
pub proof fn decimal_can_be_read_back(n: nat)
    ensures
        says(decimal(n), n as int),
    decreases n,
{
    let text = decimal(n);
    if n < 10 {
        assert(text.drop_last() =~= Seq::<char>::empty());
        assert(number(text.drop_last()) == 0);
    } else {
        let front = decimal(n / 10);
        decimal_can_be_read_back(n / 10);
        assert(text.drop_last() =~= front);
        assert(text[0] == front[0]);
        if front.len() == 1 {
            assert(number(front.drop_last()) == 0);
            assert(front.last() == front[0]);
        }
        assert forall|i: int| 0 <= i < text.len() implies '0' <= #[trigger] text[i] <= '9' by {
            if i < front.len() {
                assert(text[i] == front[i]);
            }
        }
    }
}

/// The opacity has one digit, a point and three decimals, which together say the
/// number of thousandths that is nearest to the alpha channel's share of 255.
pub proof fn opacity_can_be_read_back(alpha: u8)
    ensures
        ({
            let text = opacity(alpha as int);
            let said = number(seq![text[0], text[2], text[3], text[4]]);
            &&& text.len() == 5
            &&& text[1] == '.'
            &&& '0' <= text[0] <= '9'
            &&& '0' <= text[2] <= '9'
            &&& '0' <= text[3] <= '9'
            &&& '0' <= text[4] <= '9'
            &&& -255 < 2 * (1000 * alpha - 255 * said) < 255
        }),
{
    let t = thousandths(alpha as int);
    opacity_is_nearest(alpha);
    let text = opacity(alpha as int);
    assert(decimal((t / 1000) as nat) =~= seq![digit(t / 1000)]);
    let digits = seq![text[0], text[2], text[3], text[4]];
    let three = seq![text[0], text[2], text[3]];
    let two = seq![text[0], text[2]];
    let one = seq![text[0]];
    assert(digits.drop_last() =~= three);
    assert(three.drop_last() =~= two);
    assert(two.drop_last() =~= one);
    assert(one.drop_last() =~= Seq::<char>::empty());
    assert(number(Seq::<char>::empty()) == 0);
    assert(number(one) == t / 1000);
    assert(number(two) == 10 * number(one) + t / 100 % 10);
    assert(number(three) == 10 * number(two) + t / 10 % 10);
    assert(number(digits) == 10 * number(three) + t % 10);
    assert(number(digits) == t);
}

/// The class of a window is the common name with the number of its host behind it.
pub proof fn class_names_the_host(xid: nat) -> (host: Seq<char>)
    ensures
        says(host, xid as int),
        class_name(xid) == "tauri-cef-window-background-"@ + host,
{
    decimal_can_be_read_back(xid);
    decimal(xid)
}

/// The style sheet is one rule, for the class, whose only property is the background
/// with the red, green and blue of the color in this order and then its opacity.
pub proof fn sheet_says_the_color(class: Seq<char>, color: Color) -> (said: (
    Seq<char>,
    Seq<char>,
    Seq<char>,
    Seq<char>,
))
    ensures
        says(said.0, color.0 as int),
        says(said.1, color.1 as int),
        says(said.2, color.2 as int),
        said.3 == opacity(color.3 as int),
        background_css(class, color) == "."@ + class + " { background-color: rgba("@ + said.0
            + ", "@ + said.1 + ", "@ + said.2 + ", "@ + said.3 + "); }"@,
{
    decimal_can_be_read_back(color.0 as nat);
    decimal_can_be_read_back(color.1 as nat);
    decimal_can_be_read_back(color.2 as nat);
    (
        decimal(color.0 as nat),
        decimal(color.1 as nat),
        decimal(color.2 as nat),
        opacity(color.3 as int),
    )
}

} // verus!
