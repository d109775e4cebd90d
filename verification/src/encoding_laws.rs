//! Laws of the word encodings: what the machines print of a word (its
//! notation, its decimal numeral, its character) reads back as that word, and
//! a program written in notations or in characters loads as the words it
//! writes.
use crate::pentyte;
use crate::pentyte_machine as pm;
use crate::septendigyte;
use crate::septendigyte_machine as sm;
use crate::text::{
    decimal, digit_char, is_ascii_digit, is_space, lemma_decimal_reads_back, lemma_digit_char, lemma_parse_u16_decimal,
    lemma_program_tokens_spaced, lemma_trim_unspaced, plain_word, spaced,
};
use crate::undigyte;
use crate::undigyte::Undigyte;
use crate::undigyte_machine as um;
use vstd::prelude::*;

verus! {

/// How an undigit is written is one character that reads back as the undigit.
proof fn lemma_undigit_text(d: nat)
    requires
        d <= 10,
    ensures
        undigyte::undigit_text(d).len() == 1,
        !is_space(undigyte::undigit_text(d)[0]),
        undigyte::undigit_text(d)[0] != ';',
        undigyte::undigit_value(undigyte::undigit_text(d)[0]) == Some(d),
{
    if d < 10 {
        lemma_digit_char(d);
        assert(decimal(d) == seq![digit_char(d)]);
    }
}

/// A base-17 digit's character reads back as the digit.
proof fn lemma_septendigit_char(d: nat)
    requires
        d < 17,
    ensures
        !is_space(septendigyte::septendigit_char(d)),
        septendigyte::septendigit_char(d) != ';',
        septendigyte::septendigit_value(septendigyte::septendigit_char(d)) == Some(d),
{
    if d < 10 {
        lemma_digit_char(d);
    }
}

/// The `0u` notation of every undigyte value reads back as that value.
pub proof fn law_undigyte_notation_reads_back(v: nat)
    requires
        v < 121,
    ensures
        undigyte::parse_spec(undigyte::notation(v)) == Ok::<nat, Seq<char>>(v),
{
    lemma_undigit_text(v / 11);
    lemma_undigit_text(v % 11);
    reveal_strlit("0u");
    let s = undigyte::notation(v);
    assert(s.len() == 4);
    assert(s[0] == '0' && s[1] == 'u');
    lemma_trim_unspaced(s);
    assert(s.skip(2) =~= seq![s[2], s[3]]);
}

/// The decimal numeral of every undigyte value reads back as that value.
pub proof fn law_undigyte_decimal_reads_back(v: nat)
    requires
        v < 121,
    ensures
        undigyte::parse_spec(decimal(v)) == Ok::<nat, Seq<char>>(v),
{
    lemma_parse_u16_decimal(v);
    lemma_decimal_reads_back(v);
    let s = decimal(v);
    assert(is_ascii_digit(s[0]) && is_ascii_digit(s[s.len() - 1]));
    if s.len() >= 2 {
        assert(is_ascii_digit(s[1]));
    }
    lemma_trim_unspaced(s);
}

/// The `0s` notation of every septendigyte value reads back as that value.
pub proof fn law_septendigyte_notation_reads_back(v: nat)
    requires
        v < 289,
    ensures
        septendigyte::parse_spec(septendigyte::notation(v)) == Ok::<nat, Seq<char>>(v),
{
    lemma_septendigit_char((v / 17) % 17);
    lemma_septendigit_char(v % 17);
    reveal_strlit("0s");
    let s = septendigyte::notation(v);
    assert(s.len() == 4);
    assert(s[0] == '0' && s[1] == 's');
    lemma_trim_unspaced(s);
    assert(s.skip(2) =~= seq![s[2], s[3]]);
}

/// The decimal numeral of every septendigyte value reads back as that value.
pub proof fn law_septendigyte_decimal_reads_back(v: nat)
    requires
        v < 289,
    ensures
        septendigyte::parse_spec(decimal(v)) == Ok::<nat, Seq<char>>(v),
{
    lemma_parse_u16_decimal(v);
    lemma_decimal_reads_back(v);
    let s = decimal(v);
    assert(is_ascii_digit(s[0]) && is_ascii_digit(s[s.len() - 1]));
    if s.len() >= 2 {
        assert(is_ascii_digit(s[1]));
    }
    lemma_trim_unspaced(s);
}

/// No character stands twice in the undigyte table.
proof fn lemma_undigyte_table_distinct()
    ensures
        forall|i: int, j: int|
            0 <= i < j < 121 ==> undigyte::undigyte_table()[i] != undigyte::undigyte_table()[j],
{
}

/// No character stands twice in the pentASCII table.
proof fn lemma_pentyte_table_distinct()
    ensures
        forall|i: int, j: int|
            0 <= i < j < 125 ==> pentyte::pentyte_table()[i] != pentyte::pentyte_table()[j],
{
    reveal(pentyte::pentyte_table);
}

/// The 33 symbols after Latin-1 are distinct and lie above it.
proof fn lemma_symbols_distinct()
    ensures
        forall|i: int, j: int|
            0 <= i < j < 33 ==> septendigyte::symbols()[i] != septendigyte::symbols()[j],
        forall|i: int| 0 <= i < 33 ==> (septendigyte::symbols()[i] as u32) > 255,
{
}

/// The character of every undigyte value stands for that value again.
pub proof fn law_undigyte_char_reads_back(v: nat)
    requires
        v < 121,
    ensures
        undigyte::char_code(undigyte::undigyte_table()[v as int]) == Some(v),
{
    lemma_undigyte_table_distinct();
    let c = undigyte::undigyte_table()[v as int];
    assert(exists|i: int| 0 <= i < 121 && undigyte::undigyte_table()[i] == c);
    assert(v < 121 && undigyte::undigyte_table()[v as int] == c && forall|j: int|
        v < j < 121 ==> undigyte::undigyte_table()[j] != c);
}

/// The character of every pentyte value stands for that value again.
pub proof fn law_pentyte_char_reads_back(v: nat)
    requires
        v < 125,
    ensures
        pentyte::value_of_char(pentyte::char_of_value(v)) == Some(v),
{
    reveal(pentyte::value_of_char);
    lemma_pentyte_table_distinct();
    assert(pentyte::grid_index(v) == v);
    let c = pentyte::char_of_value(v);
    assert(exists|i: int| 0 <= i < 125 && pentyte::pentyte_table()[i] == c);
    assert(v < 125 && pentyte::pentyte_table()[v as int] == c && forall|j: int|
        v < j < 125 ==> pentyte::pentyte_table()[j] != c);
}

/// The character of every septendigyte value stands for that value again.
pub proof fn law_septendigyte_char_reads_back(v: nat)
    requires
        v < 289,
    ensures
        septendigyte::value_of_char(septendigyte::char_of_value(v)) == Some(v),
{
    lemma_symbols_distinct();
    let c = septendigyte::char_of_value(v);
    assert forall|j: nat| v < j < 289 implies septendigyte::char_of_value(j) != c by {
        if j >= 256 {
            assert(septendigyte::symbols().len() == 33);
            if v >= 256 {
                assert(septendigyte::symbols()[v - 256] != septendigyte::symbols()[j - 256]);
            } else {
                assert((septendigyte::symbols()[j - 256] as u32) > 255);
            }
        }
    }
    assert(v < 289 && septendigyte::char_of_value(v) == c);
}

/// Loading the characters of pentytes in range gives those pentytes back.
proof fn lemma_load_chars_of_values(vs: Seq<nat>)
    requires
        forall|i: int| 0 <= i < vs.len() ==> vs[i] < 125,
    ensures
        pm::load_chars(vs.map_values(|v: nat| pentyte::char_of_value(v))) == Ok::<Seq<nat>, char>(
            vs,
        ),
    decreases vs.len(),
{
    if vs.len() > 0 {
        let f = |v: nat| pentyte::char_of_value(v);
        let p = vs.drop_last();
        lemma_load_chars_of_values(p);
        assert(vs.map_values(f).drop_last() =~= p.map_values(f));
        law_pentyte_char_reads_back(vs.last());
        assert(p.push(vs.last()) =~= vs);
    } else {
        assert(vs.map_values(|v: nat| pentyte::char_of_value(v)) =~= Seq::<char>::empty());
        assert(vs =~= Seq::<nat>::empty());
    }
}

/// A program made of the pentASCII characters of 25 pentytes loads as those
/// pentytes.
pub proof fn law_pentyte_load_reads_back(vs: Seq<nat>)
    requires
        vs.len() == 25,
        forall|i: int| 0 <= i < vs.len() ==> vs[i] < 125,
    ensures
        pm::load_spec(vs.map_values(|v: nat| pentyte::char_of_value(v))) == Ok::<
            Seq<nat>,
            pm::LoadError,
        >(vs),
{
    lemma_load_chars_of_values(vs);
}

/// The `0u` notation of an undigyte value is a word the scanner reads whole.
proof fn lemma_undigyte_notation_plain(v: nat)
    requires
        v < 121,
    ensures
        plain_word(undigyte::notation(v)),
{
    reveal_strlit("0u");
    lemma_undigit_text(v / 11);
    lemma_undigit_text(v % 11);
    let s = undigyte::notation(v);
    assert(s =~= seq!['0', 'u', undigyte::undigit_text(v / 11)[0], undigyte::undigit_text(v % 11)[0]]);
    assert(is_space('0') == false && is_space('u') == false);
}

/// The `0s` notation of a septendigyte value is a word the scanner reads whole.
proof fn lemma_septendigyte_notation_plain(v: nat)
    ensures
        plain_word(septendigyte::notation(v)),
{
    reveal_strlit("0s");
    lemma_septendigit_char((v / 17) % 17);
    lemma_septendigit_char(v % 17);
    let s = septendigyte::notation(v);
    assert(s =~= seq![
        '0',
        's',
        septendigyte::septendigit_char((v / 17) % 17),
        septendigyte::septendigit_char(v % 17),
    ]);
    assert(is_space('0') == false && is_space('s') == false);
}

/// Undigyte notations on line 1 parse as the undigytes they write.
proof fn lemma_undigyte_tokens_parse(vs: Seq<Undigyte>)
    requires
        forall|i: int| 0 <= i < vs.len() ==> #[trigger] vs[i]@ < 121,
    ensures
        um::parse_tokens(vs.map_values(|u: Undigyte| (1nat, undigyte::notation(u@)))) == Ok::<
            Seq<Undigyte>,
            (nat, Seq<char>),
        >(vs),
    decreases vs.len(),
{
    let g = |u: Undigyte| (1nat, undigyte::notation(u@));
    if vs.len() == 0 {
        assert(vs.map_values(g) =~= Seq::<(nat, Seq<char>)>::empty());
        assert(vs =~= Seq::<Undigyte>::empty());
    } else {
        let p = vs.drop_last();
        assert forall|i: int| 0 <= i < p.len() implies #[trigger] p[i]@ < 121 by {
            assert(p[i] == vs[i]);
        }
        lemma_undigyte_tokens_parse(p);
        let u = vs.last();
        assert(u@ < 121);
        law_undigyte_notation_reads_back(u@);
        assert(vs.map_values(g).drop_last() =~= p.map_values(g));
        assert(Undigyte(u@ as u8) == u);
        assert(p.push(u) =~= vs);
    }
}

/// Septendigyte notations on line 1 parse as the values they write.
proof fn lemma_septendigyte_tokens_parse(vs: Seq<nat>)
    requires
        forall|i: int| 0 <= i < vs.len() ==> #[trigger] vs[i] < 289,
    ensures
        sm::parse_tokens(vs.map_values(|v: nat| (1nat, septendigyte::notation(v)))) == Ok::<
            Seq<nat>,
            (nat, Seq<char>),
        >(vs),
    decreases vs.len(),
{
    let g = |v: nat| (1nat, septendigyte::notation(v));
    if vs.len() == 0 {
        assert(vs.map_values(g) =~= Seq::<(nat, Seq<char>)>::empty());
        assert(vs =~= Seq::<nat>::empty());
    } else {
        let p = vs.drop_last();
        assert forall|i: int| 0 <= i < p.len() implies #[trigger] p[i] < 289 by {
            assert(p[i] == vs[i]);
        }
        lemma_septendigyte_tokens_parse(p);
        law_septendigyte_notation_reads_back(vs.last());
        assert(vs.map_values(g).drop_last() =~= p.map_values(g));
        assert(p.push(vs.last()) =~= vs);
    }
}

/// A program written as the `0u` notations of up to 121 undigytes, each
/// followed by a space, reads back as those undigytes.
pub proof fn law_undigyte_program_reads_back(vs: Seq<Undigyte>)
    requires
        vs.len() <= 121,
        forall|i: int| 0 <= i < vs.len() ==> #[trigger] vs[i]@ < 121,
    ensures
        um::parse_program_spec(spaced(vs.map_values(|u: Undigyte| undigyte::notation(u@))))
            == Ok::<Seq<Undigyte>, Seq<char>>(vs),
{
    let ws = vs.map_values(|u: Undigyte| undigyte::notation(u@));
    assert forall|i: int| 0 <= i < ws.len() implies plain_word(#[trigger] ws[i]) by {
        lemma_undigyte_notation_plain(vs[i]@);
    }
    lemma_program_tokens_spaced(ws);
    assert(ws.map_values(|w: Seq<char>| (1nat, w)) =~= vs.map_values(
        |u: Undigyte| (1nat, undigyte::notation(u@)),
    ));
    lemma_undigyte_tokens_parse(vs);
}

/// A program written as the `0s` notations of up to 121 septendigyte values,
/// each followed by a space, reads back as those values.
pub proof fn law_septendigyte_program_reads_back(vs: Seq<nat>)
    requires
        vs.len() <= 121,
        forall|i: int| 0 <= i < vs.len() ==> #[trigger] vs[i] < 289,
    ensures
        sm::parse_program_spec(spaced(vs.map_values(|v: nat| septendigyte::notation(v))))
            == Ok::<Seq<nat>, Seq<char>>(vs),
{
    let ws = vs.map_values(|v: nat| septendigyte::notation(v));
    assert forall|i: int| 0 <= i < ws.len() implies plain_word(#[trigger] ws[i]) by {
        lemma_septendigyte_notation_plain(vs[i]);
    }
    lemma_program_tokens_spaced(ws);
    assert(ws.map_values(|w: Seq<char>| (1nat, w)) =~= vs.map_values(
        |v: nat| (1nat, septendigyte::notation(v)),
    ));
    lemma_septendigyte_tokens_parse(vs);
}

} // verus!
