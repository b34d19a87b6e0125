//! Mesh textures and the sampler uniform each one is bound to.

use vstd::prelude::*;
use crate::power_up::str_equals;
use crate::level_format::{parse_u32, decimal_value, all_digits, is_digit, digit_value, unsigned_digits};

verus! {

/// A texture of a mesh: its OpenGL name, its role (`texture_diffuse`, `texture_specular`,
/// `texture_normal` or `texture_height`) and the file it came from.
#[derive(Clone, Debug)]
pub struct Texture {
    pub id: u32,
    pub type_s: String,
    pub path: String,
}

impl Default for Texture {
    fn default() -> (r: Self)
        ensures
            r.id == 0,
            r.type_s@ == Seq::<char>::empty(),
            r.path@ == Seq::<char>::empty(),
    {
        Texture { id: 0, type_s: String::new(), path: String::new() }
    }
}

/// The character of a decimal digit.
pub open spec fn digit_char(d: nat) -> char {
    if d == 0 {
        '0'
    } else if d == 1 {
        '1'
    } else if d == 2 {
        '2'
    } else if d == 3 {
        '3'
    } else if d == 4 {
        '4'
    } else if d == 5 {
        '5'
    } else if d == 6 {
        '6'
    } else if d == 7 {
        '7'
    } else if d == 8 {
        '8'
    } else {
        '9'
    }
}

/// The decimal representation of `n`, as `u32::to_string` writes it.
pub open spec fn decimal_string(n: nat) -> Seq<char>
    decreases n,
{
    if n < 10 {
        seq![digit_char(n)]
    } else {
        decimal_string(n / 10).push(digit_char(n % 10))
    }
}

fn digit_str(d: u32) -> (r: &'static str)
    requires
        d < 10,
    ensures
        r@ == seq![digit_char(d as nat)],
{
    proof {
        reveal_strlit("0");
        reveal_strlit("1");
        reveal_strlit("2");
        reveal_strlit("3");
        reveal_strlit("4");
        reveal_strlit("5");
        reveal_strlit("6");
        reveal_strlit("7");
        reveal_strlit("8");
        reveal_strlit("9");
    }
    match d {
        0 => "0",
        1 => "1",
        2 => "2",
        3 => "3",
        4 => "4",
        5 => "5",
        6 => "6",
        7 => "7",
        8 => "8",
        _ => "9",
    }
}

/// Appends the decimal representation of `n` to `s`.
pub fn push_decimal(s: &mut String, n: u32)
    ensures
        final(s)@ == old(s)@ + decimal_string(n as nat),
    decreases n,
{
    if n >= 10 {
        push_decimal(s, n / 10);
    }
    s.append(digit_str(n % 10));
}

/// The role names that are numbered.
pub open spec fn is_numbered_role(t: Seq<char>) -> bool {
    t == "texture_diffuse"@ || t == "texture_specular"@ || t == "texture_normal"@ || t == "texture_height"@
}

/// How many of the first `upto` roles equal `t`.
pub open spec fn role_count(types: Seq<Seq<char>>, t: Seq<char>, upto: int) -> nat
    decreases upto,
{
    if upto <= 0 {
        0
    } else {
        role_count(types, t, upto - 1) + if types[upto - 1] == t { 1nat } else { 0nat }
    }
}

/// The sampler uniform of the `i`-th texture: its role followed by the number of textures of
/// that role up to and including it (`texture_diffuseN`, N counting from 1 within each role);
/// other roles are used unnumbered.
pub open spec fn sampler_name(types: Seq<Seq<char>>, i: int) -> Seq<char> {
    if is_numbered_role(types[i]) {
        types[i] + decimal_string(role_count(types, types[i], i + 1))
    } else {
        types[i]
    }
}

proof fn lemma_role_count_bound(types: Seq<Seq<char>>, t: Seq<char>, upto: int)
    ensures
        role_count(types, t, upto) <= if upto < 0 { 0 } else { upto },
    decreases upto,
{
    if upto > 0 {
        lemma_role_count_bound(types, t, upto - 1);
    }
}

/// The sampler uniform names for textures of the given roles, in order, numbering each role
/// with its own counter that starts at 1 and is incremented after use.
pub fn sampler_uniform_names(types: &Vec<String>) -> (r: Vec<String>)
    requires
        types@.len() < u32::MAX,
    ensures
        r@.len() == types@.len(),
        forall|i: int| 0 <= i < r@.len() ==> #[trigger] r@[i]@ == sampler_name(
            types@.map_values(|t: String| t@),
            i,
        ),
{
    let ghost tv = types@.map_values(|t: String| t@);
    let mut diffuse_nr: u32 = 1;
    let mut specular_nr: u32 = 1;
    let mut normal_nr: u32 = 1;
    let mut height_nr: u32 = 1;
    let mut names: Vec<String> = Vec::new();
    let mut i: usize = 0;
    while i < types.len()
        invariant
            0 <= i <= types@.len(),
            types@.len() < u32::MAX,
            tv == types@.map_values(|t: String| t@),
            diffuse_nr == 1 + role_count(tv, "texture_diffuse"@, i as int),
            specular_nr == 1 + role_count(tv, "texture_specular"@, i as int),
            normal_nr == 1 + role_count(tv, "texture_normal"@, i as int),
            height_nr == 1 + role_count(tv, "texture_height"@, i as int),
            names@.len() == i,
            forall|j: int| 0 <= j < i ==> #[trigger] names@[j]@ == sampler_name(tv, j),
        decreases types@.len() - i,
    {
        proof {
            lemma_role_count_bound(tv, "texture_diffuse"@, i as int);
            lemma_role_count_bound(tv, "texture_specular"@, i as int);
            lemma_role_count_bound(tv, "texture_normal"@, i as int);
            lemma_role_count_bound(tv, "texture_height"@, i as int);
        }
        proof {
            reveal_strlit("texture_diffuse");
            reveal_strlit("texture_specular");
            reveal_strlit("texture_normal");
            reveal_strlit("texture_height");
            assert("texture_normal"@[8] != "texture_height"@[8]);
        }
        let name = types[i].as_str();
        assert(tv[i as int] == name@);
        let mut full = String::from_str(name);
        if str_equals(name, "texture_diffuse") {
            push_decimal(&mut full, diffuse_nr);
            diffuse_nr = diffuse_nr + 1;
        } else if str_equals(name, "texture_specular") {
            push_decimal(&mut full, specular_nr);
            specular_nr = specular_nr + 1;
        } else if str_equals(name, "texture_normal") {
            push_decimal(&mut full, normal_nr);
            normal_nr = normal_nr + 1;
        } else if str_equals(name, "texture_height") {
            push_decimal(&mut full, height_nr);
            height_nr = height_nr + 1;
        }
        names.push(full);
        i = i + 1;
    }
    names
}

/// The decimal representation of `n` is a nonempty string of digits that denotes `n`.
pub proof fn lemma_decimal_string(n: nat)
    ensures
        decimal_string(n).len() > 0,
        all_digits(decimal_string(n)),
        decimal_value(decimal_string(n)) == n,
    decreases n,
{
    if n < 10 {
        let s = decimal_string(n);
        assert(s.drop_last() =~= Seq::<char>::empty());
        assert(decimal_value(s.drop_last()) == 0);
        assert(s.last() == digit_char(n));
        assert(digit_value(digit_char(n)) == n);
        assert(decimal_value(s) == decimal_value(s.drop_last()) * 10 + digit_value(s.last()));
    } else {
        lemma_decimal_string(n / 10);
        let s = decimal_string(n);
        let p = decimal_string(n / 10);
        assert(s.drop_last() =~= p);
        assert(digit_value(digit_char(n % 10)) == n % 10);
        assert(s.last() == digit_char(n % 10));
        assert(decimal_value(s) == decimal_value(p) * 10 + digit_value(s.last()));
        assert(decimal_value(p) == n / 10);
        assert(n == (n / 10) * 10 + n % 10) by (nonlinear_arith);
        assert forall|i: int| 0 <= i < s.len() implies is_digit(#[trigger] s[i]) by {
            if i < p.len() {
                assert(s[i] == p[i]);
            }
        }
    }
}

/// Reading back a number written in decimal gives the number: the level format's number
/// reader inverts `push_decimal`.
pub proof fn lemma_decimal_round_trip(n: u32)
    ensures
        parse_u32(decimal_string(n as nat)) == Some(n),
{
    lemma_decimal_string(n as nat);
    let s = decimal_string(n as nat);
    assert(is_digit(s[0]));
    assert(unsigned_digits(s) == s);
}

/// Different numbers are written differently.
pub proof fn lemma_decimal_injective(a: u32, b: u32)
    requires
        a != b,
    ensures
        decimal_string(a as nat) != decimal_string(b as nat),
{
    lemma_decimal_round_trip(a);
    lemma_decimal_round_trip(b);
}

/// Two textures of the same numbered role are bound to different sampler uniforms.
pub proof fn lemma_sampler_names_distinct(types: Seq<Seq<char>>, i: int, j: int)
    requires
        0 <= i < j < types.len(),
        types.len() < u32::MAX,
        types[i] == types[j],
        is_numbered_role(types[i]),
    ensures
        sampler_name(types, i) != sampler_name(types, j),
{
    let t = types[i];
    lemma_role_count_bound(types, t, i + 1);
    lemma_role_count_bound(types, t, j + 1);
    lemma_role_count_grows(types, t, i + 1, j + 1);
    let a = role_count(types, t, i + 1) as u32;
    let b = role_count(types, t, j + 1) as u32;
    lemma_decimal_injective(a, b);
    let si = sampler_name(types, i);
    let sj = sampler_name(types, j);
    if si == sj {
        assert(si.subrange(t.len() as int, si.len() as int) =~= decimal_string(a as nat));
        assert(sj.subrange(t.len() as int, sj.len() as int) =~= decimal_string(b as nat));
    }
}

/// The first texture of a numbered role is bound to that role's sampler number 1.
pub proof fn lemma_first_of_role_is_one(types: Seq<Seq<char>>, i: int)
    requires
        0 <= i < types.len(),
        is_numbered_role(types[i]),
        forall|j: int| 0 <= j < i ==> #[trigger] types[j] != types[i],
    ensures
        sampler_name(types, i) == types[i] + seq!['1'],
{
    lemma_role_count_none(types, types[i], i);
    assert(role_count(types, types[i], i + 1) == 1);
    reveal_with_fuel(decimal_string, 1);
}

proof fn lemma_role_count_none(types: Seq<Seq<char>>, t: Seq<char>, upto: int)
    requires
        upto <= types.len(),
        forall|j: int| 0 <= j < upto ==> #[trigger] types[j] != t,
    ensures
        role_count(types, t, upto) == 0,
    decreases upto,
{
    if upto > 0 {
        lemma_role_count_none(types, t, upto - 1);
    }
}

proof fn lemma_role_count_grows(types: Seq<Seq<char>>, t: Seq<char>, a: int, b: int)
    requires
        0 < a < b <= types.len(),
        types[b - 1] == t,
    ensures
        role_count(types, t, a) < role_count(types, t, b),
    decreases b - a,
{
    lemma_role_count_mono(types, t, a, b - 1);
}

proof fn lemma_role_count_mono(types: Seq<Seq<char>>, t: Seq<char>, a: int, b: int)
    requires
        0 <= a <= b,
    ensures
        role_count(types, t, a) <= role_count(types, t, b),
    decreases b - a,
{
    if a < b {
        lemma_role_count_mono(types, t, a, b - 1);
    }
}

} // verus!
