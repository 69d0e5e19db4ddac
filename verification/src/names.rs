//! Names of output files and directories, and the place of an encoding in
//! the caller's ordered list of encodings.

use vstd::prelude::*;
use vstd::string::*;

verus! {

/// The character of a decimal digit.
pub open spec fn digit_char(d: nat) -> char {
    if d == 0 {
        '0'
    } else if d == 1 {
        '1'
    } else if d == 2 {
        '2'
    } else if d == 3 {
        '3'
    } else if d == 4 {
        '4'
    } else if d == 5 {
        '5'
    } else if d == 6 {
        '6'
    } else if d == 7 {
        '7'
    } else if d == 8 {
        '8'
    } else {
        '9'
    }
}

/// `n` in decimal, without leading zeros.
pub open spec fn decimal(n: nat) -> Seq<char>
    decreases n,
{
    if n < 10 {
        seq![digit_char(n)]
    } else {
        decimal(n / 10).push(digit_char(n % 10))
    }
}

/// The name of the file for a font: family, `_`, cell width, `x`, cell
/// height, and the extension `.fff`.
pub open spec fn file_name_of(family: Seq<char>, width: u32, height: u32) -> Seq<char> {
    family + seq!['_'] + decimal(width as nat) + seq!['x'] + decimal(height as nat) + seq![
        '.',
        'f',
        'f',
        'f',
    ]
}

/// The name of the page for an encoding: its slug and the extension `.html`.
pub open spec fn page_name_of(slug: Seq<char>) -> Seq<char> {
    slug + seq!['.', 'h', 't', 'm', 'l']
}

/// Whether `i` is the place of the first of `names` that reads `name`.
pub open spec fn is_slot(names: Seq<String>, name: Seq<char>, i: int) -> bool {
    &&& 0 <= i < names.len()
    &&& names[i]@ == name
    &&& forall|j: int| 0 <= j < i ==> (#[trigger] names[j])@ != name
}

/// Whether `name` is among `names`.
pub open spec fn is_listed(names: Seq<String>, name: Seq<char>) -> bool {
    exists|i: int| is_slot(names, name, i)
}

/// The place of the first of `names` that reads `name`.
pub open spec fn slot_of(names: Seq<String>, name: Seq<char>) -> int {
    choose|i: int| is_slot(names, name, i)
}

/// At most one place is the first.
pub proof fn lemma_slot_unique(names: Seq<String>, name: Seq<char>, i: int)
    requires
        is_slot(names, name, i),
    ensures
        slot_of(names, name) == i,
        is_listed(names, name),
{
    let k = slot_of(names, name);
    assert(is_slot(names, name, k));
    if k < i {
        assert(names[k]@ != name);
    } else if i < k {
        assert(names[i]@ != name);
    }
}

/// The digit `d` as a string of one character.
fn digit_str(d: u32) -> (s: &'static str)
    requires
        d < 10,
    ensures
        s@ == seq![digit_char(d as nat)],
{
    proof {
        reveal_strlit("0");
        reveal_strlit("1");
        reveal_strlit("2");
        reveal_strlit("3");
        reveal_strlit("4");
        reveal_strlit("5");
        reveal_strlit("6");
        reveal_strlit("7");
        reveal_strlit("8");
        reveal_strlit("9");
    }
    let s = if d == 0 {
        "0"
    } else if d == 1 {
        "1"
    } else if d == 2 {
        "2"
    } else if d == 3 {
        "3"
    } else if d == 4 {
        "4"
    } else if d == 5 {
        "5"
    } else if d == 6 {
        "6"
    } else if d == 7 {
        "7"
    } else if d == 8 {
        "8"
    } else {
        "9"
    };
    assert(s@ =~= seq![digit_char(d as nat)]);
    s
}

/// Appends `n` in decimal.
pub fn push_decimal(out: &mut String, n: u32)
    ensures
        final(out)@ == old(out)@ + decimal(n as nat),
    decreases n,
{
    if n >= 10 {
        push_decimal(out, n / 10);
    }
    out.append(digit_str(n % 10));
    assert(out@ =~= old(out)@ + decimal(n as nat));
}

/// The name of the file that holds the font of `family` with cells of
/// `width` by `height` pixels.
pub fn font_file_name(family: &str, width: u32, height: u32) -> (name: String)
    ensures
        name@ == file_name_of(family@, width, height),
{
    let mut name = String::from_str(family);
    proof {
        reveal_strlit("_");
        reveal_strlit("x");
        reveal_strlit(".fff");
    }
    name.append("_");
    push_decimal(&mut name, width);
    name.append("x");
    push_decimal(&mut name, height);
    name.append(".fff");
    assert(name@ =~= file_name_of(family@, width, height));
    name
}

/// The name of the page that lists the fonts of the encoding `slug`.
pub fn page_file_name(slug: &str) -> (name: String)
    ensures
        name@ == page_name_of(slug@),
{
    let mut name = String::from_str(slug);
    proof {
        reveal_strlit(".html");
    }
    name.append(".html");
    assert(name@ =~= page_name_of(slug@));
    name
}

/// The place of `name` in `encodings`: that of the first entry that reads
/// the same, or `None` where no entry does.
pub fn encoding_index(encodings: &Vec<String>, name: &String) -> (r: Option<usize>)
    ensures
        r matches Some(i) ==> is_slot(encodings@, name@, i as int),
        r is None ==> !is_listed(encodings@, name@),
{
    let mut i: usize = 0;
    while i < encodings.len()
        invariant
            i <= encodings@.len(),
            forall|j: int| 0 <= j < i ==> (#[trigger] encodings@[j])@ != name@,
        decreases encodings@.len() - i,
    {
        if encodings[i] == *name {
            return Some(i);
        }
        i += 1;
    }
    assert forall|k: int| !is_slot(encodings@, name@, k) by {
        if 0 <= k < encodings@.len() {
            assert(encodings@[k]@ != name@);
        }
    }
    None
}

} // verus!
