//! Per-rank decay weights.
//!
//! A ranked list weights its entry at rank `i` by `0.95^i`. The engine
//! works in integers: weights are scaled by `SCALE`, and each rank keeps
//! `19/20` of the previous rank's weight, rounded down. `decay_weight` is
//! the exact model of that computation.

use vstd::prelude::*;

verus! {

/// Weight scale: `decay_weight(0) == SCALE` stands for the real weight 1.0.
pub const SCALE: u64 = 1_000_000_000_000;

/// Greatest number of entries a ranked list keeps.
pub const CAPACITY: usize = 100;

/// Exact value of `decay_weight(CAPACITY)`; no weight of a kept rank is smaller.
pub const WEIGHT_FLOOR: u64 = 5_920_529_210;

/// The scaled weight of rank `i`: SCALE at rank 0, then 19/20 of the
/// previous weight (rounded down) at each further rank.
pub open spec fn decay_weight(i: nat) -> nat
    decreases i,
{
    if i == 0 {
        SCALE as nat
    } else {
        decay_weight((i - 1) as nat) * 19 / 20
    }
}

/// Each rank's weight is at most the previous rank's.
pub proof fn lemma_weight_step(i: nat)
    ensures
        decay_weight(i + 1) <= decay_weight(i),
{
    assert(decay_weight(i + 1) == decay_weight(i) * 19 / 20);
    assert(decay_weight(i) * 19 / 20 <= decay_weight(i)) by (nonlinear_arith);
}

/// Weights fall (weakly) as the rank grows.
pub proof fn lemma_weight_mono(i: nat, j: nat)
    requires
        i <= j,
    ensures
        decay_weight(j) <= decay_weight(i),
    decreases j - i,
{
    if i < j {
        lemma_weight_mono(i, (j - 1) as nat);
        lemma_weight_step((j - 1) as nat);
    }
}

/// No weight exceeds the scale.
pub proof fn lemma_weight_le_scale(i: nat)
    ensures
        decay_weight(i) <= SCALE,
{
    lemma_weight_mono(0, i);
}

/// Pins the value of the last kept rank's weight by unfolding the
/// recurrence one rank at a time.
proof fn lemma_weight_at_capacity()
    ensures
        decay_weight(100) == WEIGHT_FLOOR,
{
    assert(decay_weight(0) == 1000000000000);
    assert(decay_weight(1) == 950000000000);
    assert(decay_weight(2) == 902500000000);
    assert(decay_weight(3) == 857375000000);
    assert(decay_weight(4) == 814506250000);
    assert(decay_weight(5) == 773780937500);
    assert(decay_weight(6) == 735091890625);
    assert(decay_weight(7) == 698337296093);
    assert(decay_weight(8) == 663420431288);
    assert(decay_weight(9) == 630249409723);
    assert(decay_weight(10) == 598736939236);
    assert(decay_weight(11) == 568800092274);
    assert(decay_weight(12) == 540360087660);
    assert(decay_weight(13) == 513342083277);
    assert(decay_weight(14) == 487674979113);
    assert(decay_weight(15) == 463291230157);
    assert(decay_weight(16) == 440126668649);
    assert(decay_weight(17) == 418120335216);
    assert(decay_weight(18) == 397214318455);
    assert(decay_weight(19) == 377353602532);
    assert(decay_weight(20) == 358485922405);
    assert(decay_weight(21) == 340561626284);
    assert(decay_weight(22) == 323533544969);
    assert(decay_weight(23) == 307356867720);
    assert(decay_weight(24) == 291989024334);
    assert(decay_weight(25) == 277389573117);
    assert(decay_weight(26) == 263520094461);
    assert(decay_weight(27) == 250344089737);
    assert(decay_weight(28) == 237826885250);
    assert(decay_weight(29) == 225935540987);
    assert(decay_weight(30) == 214638763937);
    assert(decay_weight(31) == 203906825740);
    assert(decay_weight(32) == 193711484453);
    assert(decay_weight(33) == 184025910230);
    assert(decay_weight(34) == 174824614718);
    assert(decay_weight(35) == 166083383982);
    assert(decay_weight(36) == 157779214782);
    assert(decay_weight(37) == 149890254042);
    assert(decay_weight(38) == 142395741339);
    assert(decay_weight(39) == 135275954272);
    assert(decay_weight(40) == 128512156558);
    assert(decay_weight(41) == 122086548730);
    assert(decay_weight(42) == 115982221293);
    assert(decay_weight(43) == 110183110228);
    assert(decay_weight(44) == 104673954716);
    assert(decay_weight(45) == 99440256980);
    assert(decay_weight(46) == 94468244131);
    assert(decay_weight(47) == 89744831924);
    assert(decay_weight(48) == 85257590327);
    assert(decay_weight(49) == 80994710810);
    assert(decay_weight(50) == 76944975269);
    assert(decay_weight(51) == 73097726505);
    assert(decay_weight(52) == 69442840179);
    assert(decay_weight(53) == 65970698170);
    assert(decay_weight(54) == 62672163261);
    assert(decay_weight(55) == 59538555097);
    assert(decay_weight(56) == 56561627342);
    assert(decay_weight(57) == 53733545974);
    assert(decay_weight(58) == 51046868675);
    assert(decay_weight(59) == 48494525241);
    assert(decay_weight(60) == 46069798978);
    assert(decay_weight(61) == 43766309029);
    assert(decay_weight(62) == 41577993577);
    assert(decay_weight(63) == 39499093898);
    assert(decay_weight(64) == 37524139203);
    assert(decay_weight(65) == 35647932242);
    assert(decay_weight(66) == 33865535629);
    assert(decay_weight(67) == 32172258847);
    assert(decay_weight(68) == 30563645904);
    assert(decay_weight(69) == 29035463608);
    assert(decay_weight(70) == 27583690427);
    assert(decay_weight(71) == 26204505905);
    assert(decay_weight(72) == 24894280609);
    assert(decay_weight(73) == 23649566578);
    assert(decay_weight(74) == 22467088249);
    assert(decay_weight(75) == 21343733836);
    assert(decay_weight(76) == 20276547144);
    assert(decay_weight(77) == 19262719786);
    assert(decay_weight(78) == 18299583796);
    assert(decay_weight(79) == 17384604606);
    assert(decay_weight(80) == 16515374375);
    assert(decay_weight(81) == 15689605656);
    assert(decay_weight(82) == 14905125373);
    assert(decay_weight(83) == 14159869104);
    assert(decay_weight(84) == 13451875648);
    assert(decay_weight(85) == 12779281865);
    assert(decay_weight(86) == 12140317771);
    assert(decay_weight(87) == 11533301882);
    assert(decay_weight(88) == 10956636787);
    assert(decay_weight(89) == 10408804947);
    assert(decay_weight(90) == 9888364699);
    assert(decay_weight(91) == 9393946464);
    assert(decay_weight(92) == 8924249140);
    assert(decay_weight(93) == 8478036683);
    assert(decay_weight(94) == 8054134848);
    assert(decay_weight(95) == 7651428105);
    assert(decay_weight(96) == 7268856699);
    assert(decay_weight(97) == 6905413864);
    assert(decay_weight(98) == 6560143170);
    assert(decay_weight(99) == 6232136011);
    assert(decay_weight(100) == 5920529210);
}

/// Every weight of a rank the list can hold is at least `WEIGHT_FLOOR`.
pub proof fn lemma_weight_floor(i: nat)
    requires
        i <= CAPACITY,
    ensures
        decay_weight(i) >= WEIGHT_FLOOR,
{
    lemma_weight_at_capacity();
    lemma_weight_mono(i, CAPACITY as nat);
}

/// Computes the scaled weights of ranks `0 ..= n`.
pub fn weights_up_to(n: usize) -> (ws: Vec<u64>)
    requires
        n <= CAPACITY,
    ensures
        ws@.len() == n + 1,
        forall|i: int| 0 <= i <= n ==> ws@[i] == decay_weight(i as nat),
{
    let mut ws: Vec<u64> = Vec::new();
    let mut w: u64 = SCALE;
    ws.push(w);
    let mut i: usize = 0;
    while i < n
        invariant
            i <= n,
            n <= CAPACITY,
            ws@.len() == i + 1,
            w == decay_weight(i as nat),
            forall|j: int| 0 <= j <= i ==> ws@[j] == decay_weight(j as nat),
        decreases n - i,
    {
        proof {
            lemma_weight_le_scale(i as nat);
        }
        w = w * 19 / 20;
        ws.push(w);
        i = i + 1;
    }
    ws
}

} // verus!
