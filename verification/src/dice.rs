use vstd::prelude::*;

use crate::random::RandomSource;
use crate::random::advance_pos;
use crate::random::scripted_value;
use crate::text::dec_seq;
use crate::text::dec_seq_signed;
use crate::text::push_i64_dec;
use crate::text::push_u64_dec;

verus! {

/// The largest number of dice one request may roll.
pub const MAX_COUNT: u32 = 100;

/// The die shapes a roll request may ask for.
pub open spec fn allowed_sides() -> Set<u32> {
    set![4u32, 6u32, 8u32, 10u32, 12u32, 20u32, 100u32]
}

/// True when `sides` is one of the supported die shapes.
pub fn is_allowed_sides(sides: u32) -> (r: bool)
    ensures
        r == allowed_sides().contains(sides),
{
    let r = sides == 4 || sides == 6 || sides == 8 || sides == 10 || sides == 12 || sides == 20
        || sides == 100;
    proof {
        assert(allowed_sides().contains(sides) == (sides == 4 || sides == 6 || sides == 8
            || sides == 10 || sides == 12 || sides == 20 || sides == 100));
    }
    r
}

/// One request to roll dice: the die shape, how many dice, and a flat bonus.
#[derive(Debug)]
pub struct DiceRollRequest {
    pub sides: u32,
    pub count: u32,
    pub modifier: i32,
}

/// The numeric outcome of a roll: every die drawn, and the modified sum.
#[derive(Debug)]
pub struct DiceRollResult {
    pub rolls: Vec<u32>,
    pub total: i64,
}

/// Why a roll request was rejected before any die was drawn.
#[derive(Clone, Copy, PartialEq, Eq, Structural, Debug)]
pub enum RollError {
    /// `sides` is not one of the supported die shapes.
    InvalidDieShape,
    /// `count` is zero or exceeds `MAX_COUNT`.
    InvalidCount,
}

/// A request the roller accepts: a supported shape and a bounded die count.
pub open spec fn request_valid(req: DiceRollRequest) -> bool {
    allowed_sides().contains(req.sides) && 1 <= req.count <= MAX_COUNT
}

/// The sum of all dice in `rolls`.
pub open spec fn sum_rolls(rolls: Seq<u32>) -> int
    decreases rolls.len(),
{
    if rolls.len() == 0 {
        0
    } else {
        sum_rolls(rolls.drop_last()) + rolls.last()
    }
}

/// The sequence of values `n` draws over `[1, sides]` yield from a script.
pub open spec fn scripted_rolls(values: Seq<u32>, pos: int, sides: u32, n: int) -> Seq<u32>
    decreases n,
{
    if n <= 0 {
        Seq::empty()
    } else {
        scripted_rolls(values, pos, sides, n - 1).push(
            scripted_value(values, advance_pos(values.len() as int, pos, n - 1), 1, sides),
        )
    }
}

/// What a successful roll guarantees: one in-range value per die, the
/// modified sum, and — for a scripted source — exactly the scripted draws.
pub open spec fn roll_ok_post(
    rng0: RandomSource,
    rng1: RandomSource,
    req: DiceRollRequest,
    res: DiceRollResult,
) -> bool {
    &&& res.rolls@.len() == req.count
    &&& forall|j: int| 0 <= j < res.rolls@.len() ==> 1 <= #[trigger] res.rolls@[j] <= req.sides
    &&& res.total == sum_rolls(res.rolls@) + req.modifier
    &&& rng0 is System ==> rng1 is System
    &&& rng0 is Scripted ==> rng1 is Scripted && rng1.scripted_values() == rng0.scripted_values()
        && rng1.scripted_pos() == advance_pos(
            rng0.scripted_values().len() as int,
            rng0.scripted_pos(),
            req.count as int,
        )
        && res.rolls@ == scripted_rolls(
            rng0.scripted_values(),
            rng0.scripted_pos(),
            req.sides,
            req.count as int,
        )
}

/// Rolls the requested dice, drawing each die from `rng`.
///
/// The request is validated first: an unsupported die shape or an
/// out-of-bounds count is rejected with the matching error, and in that
/// case no die is drawn.
pub fn roll(req: &DiceRollRequest, rng: &mut RandomSource) -> (r: Result<
    DiceRollResult,
    RollError,
>)
    ensures
        r is Ok <==> request_valid(*req),
        !allowed_sides().contains(req.sides) <==> r is Err && r->Err_0
            == RollError::InvalidDieShape,
        allowed_sides().contains(req.sides) && !(1 <= req.count <= MAX_COUNT) <==> r is Err
            && r->Err_0 == RollError::InvalidCount,
        r is Err ==> *final(rng) == *old(rng),
        r is Ok ==> roll_ok_post(*old(rng), *final(rng), *req, r->Ok_0),
{
    if !is_allowed_sides(req.sides) {
        return Err(RollError::InvalidDieShape);
    }
    if req.count < 1 || req.count > MAX_COUNT {
        return Err(RollError::InvalidCount);
    }
    proof {
        assert(4 <= req.sides <= 100);
    }
    let ghost rng0 = *rng;
    let ghost v0 = rng0.scripted_values();
    let ghost p0 = rng0.scripted_pos();
    let mut rolls: Vec<u32> = Vec::new();
    let mut sum: u64 = 0;
    let mut i: u32 = 0;
    while i < req.count
        invariant
            4 <= req.sides <= 100,
            1 <= req.count <= MAX_COUNT,
            i <= req.count,
            rolls@.len() == i as int,
            forall|j: int| 0 <= j < i as int ==> 1 <= #[trigger] rolls@[j] <= req.sides,
            sum == sum_rolls(rolls@),
            sum <= 100 * (i as int),
            v0 == rng0.scripted_values(),
            p0 == rng0.scripted_pos(),
            rng0 is System ==> *rng is System,
            rng0 is Scripted ==> *rng is Scripted && rng.scripted_values() == v0
                && rng.scripted_pos() == advance_pos(v0.len() as int, p0, i as int)
                && rolls@ == scripted_rolls(v0, p0, req.sides, i as int),
        decreases req.count - i,
    {
        let drew = rng.next(1, req.sides);
        let val = match drew {
            Ok(v) => v,
            // Unreachable: the range [1, sides] is never empty here.
            Err(_) => 1,
        };
        let ghost prev = rolls@;
        rolls.push(val);
        proof {
            assert(rolls@.drop_last() =~= prev);
        }
        sum = sum + val as u64;
        i = i + 1;
        proof {
            if rng0 is Scripted {
                assert(advance_pos(v0.len() as int, p0, i as int) == crate::random::step_pos(
                    v0.len() as int,
                    advance_pos(v0.len() as int, p0, i as int - 1),
                ));
                assert(scripted_rolls(v0, p0, req.sides, i as int) == scripted_rolls(
                    v0,
                    p0,
                    req.sides,
                    i as int - 1,
                ).push(scripted_value(v0, advance_pos(v0.len() as int, p0, i as int - 1), 1, req.sides)));
            }
        }
    }
    let total: i64 = sum as i64 + req.modifier as i64;
    Ok(DiceRollResult { rolls, total })
}

/// The decimal renderings of `rolls`, joined by a comma and a space.
pub open spec fn join_dec(rolls: Seq<u32>) -> Seq<char>
    decreases rolls.len(),
{
    if rolls.len() == 0 {
        Seq::empty()
    } else if rolls.len() == 1 {
        dec_seq(rolls[0] as nat)
    } else {
        join_dec(rolls.drop_last()) + seq![',', ' '] + dec_seq(rolls.last() as nat)
    }
}

/// The text reported for a roll: a one-line narrative for a single die, a
/// breakdown of every die otherwise.
pub open spec fn roll_message(
    invoker: Seq<char>,
    req: DiceRollRequest,
    rolls: Seq<u32>,
    total: i64,
) -> Seq<char> {
    if req.count == 1 {
        invoker + " rolled a "@ + dec_seq(req.sides as nat) + " sided die with a modifier of "@
            + dec_seq_signed(req.modifier as int) + ". The roll is "@ + dec_seq(rolls[0] as nat)
            + ". The total is "@ + dec_seq_signed(total as int) + "."@
    } else {
        invoker + " rolled "@ + dec_seq(req.count as nat) + "d"@ + dec_seq(req.sides as nat)
            + " with a modifier of "@ + dec_seq_signed(req.modifier as int) + ". The rolls were "@
            + join_dec(rolls) + ". The total is "@ + dec_seq_signed(total as int) + "."@
    }
}

/// Appends the joined decimal renderings of `rolls` to `s`.
fn push_join(s: &mut String, rolls: &Vec<u32>)
    ensures
        final(s)@ == old(s)@ + join_dec(rolls@),
{
    proof {
        assert(old(s)@ + join_dec(rolls@.take(0)) =~= old(s)@);
    }
    let mut i: usize = 0;
    while i < rolls.len()
        invariant
            i <= rolls@.len(),
            s@ == old(s)@ + join_dec(rolls@.take(i as int)),
        decreases rolls@.len() - i,
    {
        if i > 0 {
            proof {
                reveal_strlit(", ");
                assert(", "@ =~= seq![',', ' ']);
            }
            s.append(", ");
        }
        push_u64_dec(s, rolls[i] as u64);
        proof {
            assert(rolls@.take(i as int + 1).drop_last() =~= rolls@.take(i as int));
            assert(s@ =~= old(s)@ + join_dec(rolls@.take(i as int + 1)));
        }
        i = i + 1;
    }
    proof {
        assert(rolls@.take(rolls@.len() as int) =~= rolls@);
    }
}

/// Renders the reply text for a completed roll.
pub fn format_roll_message(invoker: &str, req: &DiceRollRequest, res: &DiceRollResult) -> (r:
    String)
    requires
        req.count >= 1,
        res.rolls@.len() == req.count,
    ensures
        r@ == roll_message(invoker@, *req, res.rolls@, res.total),
{
    let mut s = String::new();
    s.append(invoker);
    if req.count == 1 {
        s.append(" rolled a ");
        push_u64_dec(&mut s, req.sides as u64);
        s.append(" sided die with a modifier of ");
        push_i64_dec(&mut s, req.modifier as i64);
        s.append(". The roll is ");
        push_u64_dec(&mut s, res.rolls[0] as u64);
        s.append(". The total is ");
        push_i64_dec(&mut s, res.total);
        s.append(".");
        proof {
            assert(s@ =~= roll_message(invoker@, *req, res.rolls@, res.total));
        }
    } else {
        s.append(" rolled ");
        push_u64_dec(&mut s, req.count as u64);
        s.append("d");
        push_u64_dec(&mut s, req.sides as u64);
        s.append(" with a modifier of ");
        push_i64_dec(&mut s, req.modifier as i64);
        s.append(". The rolls were ");
        push_join(&mut s, &res.rolls);
        s.append(". The total is ");
        push_i64_dec(&mut s, res.total);
        s.append(".");
        proof {
            assert(s@ =~= roll_message(invoker@, *req, res.rolls@, res.total));
        }
    }
    s
}

/// Law: with a fixed script, rolling is deterministic. Two successful rolls
/// of the same request, drawn from scripted sources holding the same script
/// at the same position, yield the same dice and the same total.
pub proof fn lemma_roll_deterministic(
    a0: RandomSource,
    a1: RandomSource,
    b0: RandomSource,
    b1: RandomSource,
    req: DiceRollRequest,
    res_a: DiceRollResult,
    res_b: DiceRollResult,
)
    requires
        roll_ok_post(a0, a1, req, res_a),
        roll_ok_post(b0, b1, req, res_b),
        a0 is Scripted,
        b0 is Scripted,
        a0.scripted_values() == b0.scripted_values(),
        a0.scripted_pos() == b0.scripted_pos(),
    ensures
        res_a.rolls@ == res_b.rolls@,
        res_a.total == res_b.total,
{
}

} // verus!
