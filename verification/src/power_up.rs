//! Breakout power-ups: their kinds, when they spawn and whether one of a kind is active.

use vstd::prelude::*;

verus! {

/// Whether two strings hold the same characters.
pub fn str_equals(a: &str, b: &str) -> (r: bool)
    ensures
        r == (a@ == b@),
{
    let n = a.unicode_len();
    if n != b.unicode_len() {
        return false;
    }
    let mut i: usize = 0;
    while i < n
        invariant
            0 <= i <= n,
            n == a@.len(),
            n == b@.len(),
            forall|j: int| 0 <= j < i ==> a@[j] == b@[j],
        decreases n - i,
    {
        if a.get_char(i) != b.get_char(i) {
            return false;
        }
        i = i + 1;
    }
    assert(a@ =~= b@);
    true
}

/// The kinds of power-up a destroyed brick can drop.
#[derive(Clone, Copy, PartialEq, Eq, Structural, Debug)]
pub enum PowerUpKind {
    Speed,
    Sticky,
    PassThrough,
    PadSizeIncrease,
    Confuse,
    Chaos,
}

/// The type name of a kind, as power-ups carry it.
pub open spec fn kind_type_str(kind: PowerUpKind) -> Seq<char> {
    match kind {
        PowerUpKind::Speed => "speed"@,
        PowerUpKind::Sticky => "sticky"@,
        PowerUpKind::PassThrough => "pass-through"@,
        PowerUpKind::PadSizeIncrease => "pad-size-increase"@,
        PowerUpKind::Confuse => "confuse"@,
        PowerUpKind::Chaos => "chaos"@,
    }
}

/// The name of the texture a kind is drawn with.
pub open spec fn kind_texture_name(kind: PowerUpKind) -> Seq<char> {
    match kind {
        PowerUpKind::Speed => "powerup_speed"@,
        PowerUpKind::Sticky => "powerup_sticky"@,
        PowerUpKind::PassThrough => "powerup_passthrough"@,
        PowerUpKind::PadSizeIncrease => "powerup_increase"@,
        PowerUpKind::Confuse => "powerup_confuse"@,
        PowerUpKind::Chaos => "powerup_chaos"@,
    }
}

/// One in how many destroyed bricks drops a power-up of this kind.
pub open spec fn kind_chance(kind: PowerUpKind) -> u32 {
    match kind {
        PowerUpKind::Confuse | PowerUpKind::Chaos => 15,
        _ => 75,
    }
}

/// The kinds in the order a destroyed brick tries them.
pub open spec fn spawn_order() -> Seq<PowerUpKind> {
    seq![
        PowerUpKind::Speed,
        PowerUpKind::Sticky,
        PowerUpKind::PassThrough,
        PowerUpKind::PadSizeIncrease,
        PowerUpKind::Confuse,
        PowerUpKind::Chaos,
    ]
}

impl PowerUpKind {
    /// The type name of the kind.
    pub fn type_str(&self) -> (r: String)
        ensures
            r@ == kind_type_str(*self),
    {
        proof {
            reveal_strlit("speed");
            reveal_strlit("sticky");
            reveal_strlit("pass-through");
            reveal_strlit("pad-size-increase");
            reveal_strlit("confuse");
            reveal_strlit("chaos");
        }
        match self {
            PowerUpKind::Speed => String::from_str("speed"),
            PowerUpKind::Sticky => String::from_str("sticky"),
            PowerUpKind::PassThrough => String::from_str("pass-through"),
            PowerUpKind::PadSizeIncrease => String::from_str("pad-size-increase"),
            PowerUpKind::Confuse => String::from_str("confuse"),
            PowerUpKind::Chaos => String::from_str("chaos"),
        }
    }

    /// The name of the texture the kind is drawn with.
    pub fn texture_name(&self) -> (r: String)
        ensures
            r@ == kind_texture_name(*self),
    {
        match self {
            PowerUpKind::Speed => String::from_str("powerup_speed"),
            PowerUpKind::Sticky => String::from_str("powerup_sticky"),
            PowerUpKind::PassThrough => String::from_str("powerup_passthrough"),
            PowerUpKind::PadSizeIncrease => String::from_str("powerup_increase"),
            PowerUpKind::Confuse => String::from_str("powerup_confuse"),
            PowerUpKind::Chaos => String::from_str("powerup_chaos"),
        }
    }

    /// One in how many destroyed bricks drops this kind.
    pub fn chance(&self) -> (r: u32)
        ensures
            r == kind_chance(*self),
    {
        match self {
            PowerUpKind::Confuse | PowerUpKind::Chaos => 15,
            _ => 75,
        }
    }
}

/// A power-up: the plain state the rules read, and the body (position, motion, colour,
/// remaining duration) that the caller moves and draws.
pub struct PowerUp<B> {
    pub body: B,
    pub type_str: String,
    pub activated: bool,
    pub destroyed: bool,
}

impl<B> PowerUp<B> {
    /// A fresh, inactive power-up of type `type_str`.
    pub fn new(type_str: String, body: B) -> (r: Self)
        ensures
            r.body == body,
            r.type_str == type_str,
            !r.activated,
            !r.destroyed,
    {
        PowerUp { body, type_str, activated: false, destroyed: false }
    }
}

/// Some power-up of type `type_str` is active.
pub open spec fn some_active<B>(power_ups: Seq<PowerUp<B>>, type_str: Seq<char>) -> bool {
    exists|i: int| 0 <= i < power_ups.len() && #[trigger] power_ups[i].activated && power_ups[i].type_str@
        == type_str
}

/// Whether a power-up of type `type_str` is active.
pub fn is_other_power_up_active<B>(power_ups: &Vec<PowerUp<B>>, type_str: String) -> (r: bool)
    ensures
        r == some_active(power_ups@, type_str@),
{
    let mut i: usize = 0;
    while i < power_ups.len()
        invariant
            0 <= i <= power_ups@.len(),
            forall|j: int| 0 <= j < i ==> !(#[trigger] power_ups@[j].activated && power_ups@[j].type_str@
                == type_str@),
        decreases power_ups@.len() - i,
    {
        if power_ups[i].activated {
            if str_equals(power_ups[i].type_str.as_str(), type_str.as_str()) {
                return true;
            }
        }
        i = i + 1;
    }
    false
}

/// The thread-local random number generator of `rand`.
#[verifier::external_type_specification]
#[verifier::external_body]
pub struct ExThreadRng(rand::rngs::ThreadRng);

/// Calls `rand::thread_rng`; nothing is claimed of the generator.
#[verifier::external_body]
fn thread_rng() -> rand::rngs::ThreadRng {
    rand::thread_rng()
}

/// Calls `Rng::gen::<u32>` on the generator; nothing is claimed of the value.
#[verifier::external_body]
fn gen_u32(rng: &mut rand::rngs::ThreadRng) -> u32 {
    rand::Rng::gen::<u32>(rng)
}

/// Whether `draw` selects a spawn that happens one time in `chance`.
pub open spec fn spawns(draw: u32, chance: u32) -> bool {
    draw % chance == 0
}

/// The one-in-`chance` decision for a given random draw.
pub fn spawn_decision(random: u32, chance: u32) -> (r: bool)
    requires
        chance > 0,
    ensures
        r == (random % chance == 0),
{
    random % chance == 0
}

/// Decides at random, with chance one in `chance`, whether something spawns.
pub fn should_spawn(chance: u32) -> (r: bool)
    requires
        chance > 0,
    ensures
        exists|draw: u32| r == #[trigger] spawns(draw, chance),
        chance == 1 ==> r,
{
    let mut rng = thread_rng();
    let random = gen_u32(&mut rng);
    let r = spawn_decision(random, chance);
    assert(r == spawns(random, chance));
    r
}

/// The kinds among the first `upto` in spawn order whose draw is a multiple of their chance.
pub open spec fn spawned_kinds(draws: Seq<u32>, upto: nat) -> Seq<PowerUpKind>
    decreases upto,
{
    if upto == 0 {
        Seq::empty()
    } else {
        let prev = spawned_kinds(draws, (upto - 1) as nat);
        let kind = spawn_order()[upto - 1];
        if draws[upto - 1] % kind_chance(kind) == 0 {
            prev.push(kind)
        } else {
            prev
        }
    }
}

proof fn lemma_spawned_prefix(draws: Seq<u32>, upto: nat, k: int)
    requires
        upto <= 6,
    ensures
        spawned_kinds(draws, upto).len() <= upto,
        forall|m: int|
            0 <= m < spawned_kinds(draws, upto).len() ==> exists|q: int|
                0 <= q < upto && #[trigger] spawned_kinds(draws, upto)[m] == spawn_order()[q],
        0 <= k < upto ==> (spawned_kinds(draws, upto).contains(spawn_order()[k]) <==> draws[k] % kind_chance(
            spawn_order()[k],
        ) == 0),
    decreases upto,
{
    if upto > 0 {
        let prev = spawned_kinds(draws, (upto - 1) as nat);
        lemma_spawned_prefix(draws, (upto - 1) as nat, k);
        let kind = spawn_order()[upto - 1];
        let cur = spawned_kinds(draws, upto);
        assert forall|m: int| 0 <= m < cur.len() implies exists|q: int|
            0 <= q < upto && #[trigger] cur[m] == spawn_order()[q] by {
            if m < prev.len() {
                assert(cur[m] == prev[m]);
                let q = choose|q: int| 0 <= q < upto - 1 && #[trigger] prev[m] == spawn_order()[q];
                assert(cur[m] == spawn_order()[q]);
            } else {
                assert(cur[m] == spawn_order()[upto - 1]);
            }
        }
        if 0 <= k < upto {
            if k < upto - 1 {
                // The kind at `upto - 1` differs from every earlier one.
                assert(spawn_order()[k] != kind);
                if draws[upto - 1] % kind_chance(kind) == 0 {
                    assert(cur == prev.push(kind));
                    if cur.contains(spawn_order()[k]) {
                        let m = choose|m: int| 0 <= m < cur.len() && cur[m] == spawn_order()[k];
                        assert(prev[m] == spawn_order()[k]);
                    }
                    if prev.contains(spawn_order()[k]) {
                        let m = choose|m: int| 0 <= m < prev.len() && prev[m] == spawn_order()[k];
                        assert(cur[m] == spawn_order()[k]);
                    }
                }
            } else {
                if draws[k] % kind_chance(kind) == 0 {
                    assert(cur == prev.push(kind));
                    assert(cur[prev.len() as int] == kind);
                } else {
                    assert(cur == prev);
                    if prev.contains(kind) {
                        let m = choose|m: int| 0 <= m < prev.len() && prev[m] == kind;
                        let q = choose|q: int| 0 <= q < upto - 1 && #[trigger] prev[m] == spawn_order()[q];
                        assert(spawn_order()[q] != kind);
                    }
                }
            }
        }
    }
}

/// Each kind of power-up drops exactly when its own draw is a multiple of its chance: one in
/// 75 for speed, sticky, pass-through and pad-size-increase (draws 0 to 3), one in 15 for
/// confuse and chaos (draws 4 and 5).
pub proof fn lemma_spawn_chances(draws: Seq<u32>)
    requires
        draws.len() == 6,
    ensures
        spawned_kinds(draws, 6).contains(PowerUpKind::Speed) <==> draws[0] % 75 == 0,
        spawned_kinds(draws, 6).contains(PowerUpKind::Sticky) <==> draws[1] % 75 == 0,
        spawned_kinds(draws, 6).contains(PowerUpKind::PassThrough) <==> draws[2] % 75 == 0,
        spawned_kinds(draws, 6).contains(PowerUpKind::PadSizeIncrease) <==> draws[3] % 75 == 0,
        spawned_kinds(draws, 6).contains(PowerUpKind::Confuse) <==> draws[4] % 15 == 0,
        spawned_kinds(draws, 6).contains(PowerUpKind::Chaos) <==> draws[5] % 15 == 0,
{
    lemma_spawned_prefix(draws, 6, 0);
    lemma_spawned_prefix(draws, 6, 1);
    lemma_spawned_prefix(draws, 6, 2);
    lemma_spawned_prefix(draws, 6, 3);
    lemma_spawned_prefix(draws, 6, 4);
    lemma_spawned_prefix(draws, 6, 5);
}

/// The kinds that a destroyed brick drops for the given six random draws: each kind in
/// spawn order, kept when its draw is a multiple of its chance.
pub fn kinds_for_draws(draws: &[u32; 6]) -> (r: Vec<PowerUpKind>)
    ensures
        r@ == spawned_kinds(draws@, 6),
{
    let order = [
        PowerUpKind::Speed,
        PowerUpKind::Sticky,
        PowerUpKind::PassThrough,
        PowerUpKind::PadSizeIncrease,
        PowerUpKind::Confuse,
        PowerUpKind::Chaos,
    ];
    assert(order@ =~= spawn_order());
    let mut out: Vec<PowerUpKind> = Vec::new();
    let mut i: usize = 0;
    while i < 6
        invariant
            0 <= i <= 6,
            order@ == spawn_order(),
            out@ == spawned_kinds(draws@, i as nat),
        decreases 6 - i,
    {
        let kind = order[i];
        if spawn_decision(draws[i], kind.chance()) {
            out.push(kind);
        }
        i = i + 1;
    }
    out
}

/// The kinds a destroyed brick drops, decided at random: six draws, one per kind in spawn
/// order. What is claimed is only that the result is such a selection.
pub fn power_up_spawns() -> (r: Vec<PowerUpKind>)
    ensures
        exists|draws: Seq<u32>| draws.len() == 6 && r@ == spawned_kinds(draws, 6),
{
    let mut rng = thread_rng();
    let draws = [
        gen_u32(&mut rng),
        gen_u32(&mut rng),
        gen_u32(&mut rng),
        gen_u32(&mut rng),
        gen_u32(&mut rng),
        gen_u32(&mut rng),
    ];
    let r = kinds_for_draws(&draws);
    assert(draws@.len() == 6 && r@ == spawned_kinds(draws@, 6));
    r
}

} // verus!
