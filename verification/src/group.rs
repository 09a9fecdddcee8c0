//! Arithmetic of the group that carries the signatures: the subgroup of
//! prime order `ORDER` of the multiplicative group modulo the safe prime
//! `MODULUS = 2 * ORDER + 1`.  Group elements are residues, the group
//! operation is multiplication of residues, and multiplying an element by a
//! scalar is raising the residue to that power.
//!
//! The parameters are chosen so that every residue fits one machine word
//! and every product fits two: they fix the arithmetic, not a security
//! level.

use vstd::prelude::*;
use vstd::arithmetic::power::*;
use vstd::arithmetic::div_mod::*;

verus! {

/// The safe prime that residues are reduced by.
pub const MODULUS: u64 = 2305843009213691579;

/// The prime order of the group; scalars are integers below it.
pub const ORDER: u64 = 1152921504606845789;

/// The residue of the base point.
pub const GENERATOR: u64 = 4;

/// Product of two residues.
pub open spec fn mul_mod(a: nat, b: nat) -> nat {
    (a * b) % (MODULUS as nat)
}

/// The residue `b` raised to the power `e`.
pub open spec fn pow_mod(b: nat, e: nat) -> nat {
    (pow(b as int, e) % (MODULUS as int)) as nat
}

/// Membership in the group of order `ORDER`.
pub open spec fn in_group(v: nat) -> bool {
    1 <= v < MODULUS && pow_mod(v, ORDER as nat) == 1
}

/// Sum of two scalars.
pub open spec fn scalar_sum(a: nat, b: nat) -> nat {
    (a + b) % (ORDER as nat)
}

/// Difference of two scalars.
pub open spec fn scalar_difference(a: nat, b: nat) -> nat {
    ((a as int - b as int) % (ORDER as int)) as nat
}

/// Product of two scalars.
pub open spec fn scalar_product(a: nat, b: nat) -> nat {
    (a * b) % (ORDER as nat)
}

pub proof fn lemma_pow_nonneg(b: nat, e: nat)
    ensures
        pow(b as int, e) >= 0,
    decreases e,
{
    reveal(pow);
    if e > 0 {
        lemma_pow_nonneg(b, (e - 1) as nat);
        assert(b as int * pow(b as int, (e - 1) as nat) >= 0) by (nonlinear_arith)
            requires
                b >= 0,
                pow(b as int, (e - 1) as nat) >= 0,
        ;
    }
}

/// One round of square-and-multiply: the powers `2e` and `2e + 1` from the
/// power `e`.
pub proof fn lemma_pow_mod_step(b: nat, e: nat)
    ensures
        pow_mod(b, 2 * e) == mul_mod(pow_mod(b, e), pow_mod(b, e)),
        pow_mod(b, 2 * e + 1) == mul_mod(pow_mod(b, 2 * e), b % (MODULUS as nat)),
        pow_mod(b, 0) == 1,
{
    let m = MODULUS as int;
    let h = pow(b as int, e);
    lemma_pow_nonneg(b, e);
    lemma_pow_nonneg(b, 2 * e);
    lemma_pow_adds(b as int, e, e);
    assert(pow(b as int, 2 * e) == h * h);
    lemma_mul_mod_noop(h, h, m);
    lemma_pow_adds(b as int, 2 * e, 1);
    lemma_pow1(b as int);
    assert(pow(b as int, 2 * e + 1) == pow(b as int, 2 * e) * (b as int));
    lemma_mul_mod_noop(pow(b as int, 2 * e), b as int, m);
    lemma_pow0(b as int);
}

/// Multiplies two residues.
pub fn mul_mod_exec(a: u64, b: u64) -> (r: u64)
    requires
        a < MODULUS,
        b < MODULUS,
    ensures
        r == mul_mod(a as nat, b as nat),
        r < MODULUS,
{
    assert(a as u128 * b as u128 <= 0x2000_0000_0000_0000u128 * 0x2000_0000_0000_0000u128)
        by (nonlinear_arith)
        requires
            a < 0x2000_0000_0000_0000u128,
            b < 0x2000_0000_0000_0000u128,
    ;
    let wide: u128 = (a as u128) * (b as u128);
    let r: u128 = wide % (MODULUS as u128);
    r as u64
}

/// Raises a residue to a power by repeated squaring.
pub fn pow_mod_exec(b: u64, e: u64) -> (r: u64)
    requires
        b < MODULUS,
    ensures
        r == pow_mod(b as nat, e as nat),
        r < MODULUS,
    decreases e,
{
    if e == 0 {
        proof {
            lemma_pow0(b as int);
        }
        1
    } else {
        let half: u64 = pow_mod_exec(b, e / 2);
        let square: u64 = mul_mod_exec(half, half);
        proof {
            lemma_pow_mod_step(b as nat, (e / 2) as nat);
            assert(b as nat % (MODULUS as nat) == b as nat);
        }
        if e % 2 == 1 {
            mul_mod_exec(square, b)
        } else {
            square
        }
    }
}

/// Tests whether a residue lies in the group.
pub fn in_group_exec(v: u64) -> (r: bool)
    ensures
        r == in_group(v as nat),
{
    if v == 0 || v >= MODULUS {
        false
    } else {
        pow_mod_exec(v, ORDER) == 1
    }
}

/// One round of the ladder for the base point, on given residues.
proof fn lemma_generator_step(e: nat, r: nat, bit: nat, next: nat)
    requires
        pow_mod(4, e) == r,
        bit <= 1,
        next == (((r * r) % (MODULUS as nat)) * (if bit == 1 { 4nat } else { 1nat })) % (MODULUS as nat),
    ensures
        pow_mod(4, 2 * e + bit) == next,
{
    lemma_pow_mod_step(4, e);
}

/// The base point's power 1023.
proof fn lemma_generator_power_0()
    ensures
        pow_mod(4, 1023) == 512636585211687411,
{
    lemma_pow_mod_step(4, 0);
    assert(((1nat * 1nat) % 2305843009213691579nat) * 4nat % 2305843009213691579nat == 4nat) by (nonlinear_arith);
    lemma_generator_step(0, 1, 1, 4);
    assert(((4nat * 4nat) % 2305843009213691579nat) * 4nat % 2305843009213691579nat == 64nat) by (nonlinear_arith);
    lemma_generator_step(1, 4, 1, 64);
    assert(((64nat * 64nat) % 2305843009213691579nat) * 4nat % 2305843009213691579nat == 16384nat) by (nonlinear_arith);
    lemma_generator_step(3, 64, 1, 16384);
    assert(((16384nat * 16384nat) % 2305843009213691579nat) * 4nat % 2305843009213691579nat == 1073741824nat) by (nonlinear_arith);
    lemma_generator_step(7, 16384, 1, 1073741824);
    assert(((1073741824nat * 1073741824nat) % 2305843009213691579nat) * 4nat % 2305843009213691579nat == 4746nat) by (nonlinear_arith);
    lemma_generator_step(15, 1073741824, 1, 4746);
    assert(((4746nat * 4746nat) % 2305843009213691579nat) * 4nat % 2305843009213691579nat == 90098064nat) by (nonlinear_arith);
    lemma_generator_step(31, 4746, 1, 90098064);
    assert(((90098064nat * 90098064nat) % 2305843009213691579nat) * 4nat % 2305843009213691579nat == 32470644546192384nat) by (nonlinear_arith);
    lemma_generator_step(63, 90098064, 1, 32470644546192384);
    assert(((32470644546192384nat * 32470644546192384nat) % 2305843009213691579nat) * 4nat % 2305843009213691579nat == 1538405030517499123nat) by (nonlinear_arith);
    lemma_generator_step(127, 32470644546192384, 1, 1538405030517499123);
    assert(((1538405030517499123nat * 1538405030517499123nat) % 2305843009213691579nat) * 4nat % 2305843009213691579nat == 800516857753040077nat) by (nonlinear_arith);
    lemma_generator_step(255, 1538405030517499123, 1, 800516857753040077);
    assert(((800516857753040077nat * 800516857753040077nat) % 2305843009213691579nat) * 4nat % 2305843009213691579nat == 512636585211687411nat) by (nonlinear_arith);
    lemma_generator_step(511, 800516857753040077, 1, 512636585211687411);
}

/// The base point's power 1048575.
proof fn lemma_generator_power_1()
    ensures
        pow_mod(4, 1048575) == 386351507899569272,
{
    lemma_generator_power_0();
    assert(((512636585211687411nat * 512636585211687411nat) % 2305843009213691579nat) * 4nat % 2305843009213691579nat == 1722714031085102350nat) by (nonlinear_arith);
    lemma_generator_step(1023, 512636585211687411, 1, 1722714031085102350);
    assert(((1722714031085102350nat * 1722714031085102350nat) % 2305843009213691579nat) * 4nat % 2305843009213691579nat == 261769603012871877nat) by (nonlinear_arith);
    lemma_generator_step(2047, 1722714031085102350, 1, 261769603012871877);
    assert(((261769603012871877nat * 261769603012871877nat) % 2305843009213691579nat) * 4nat % 2305843009213691579nat == 1420677842589912371nat) by (nonlinear_arith);
    lemma_generator_step(4095, 261769603012871877, 1, 1420677842589912371);
    assert(((1420677842589912371nat * 1420677842589912371nat) % 2305843009213691579nat) * 4nat % 2305843009213691579nat == 562978030738296616nat) by (nonlinear_arith);
    lemma_generator_step(8191, 1420677842589912371, 1, 562978030738296616);
    assert(((562978030738296616nat * 562978030738296616nat) % 2305843009213691579nat) * 4nat % 2305843009213691579nat == 209928537448475264nat) by (nonlinear_arith);
    lemma_generator_step(16383, 562978030738296616, 1, 209928537448475264);
    assert(((209928537448475264nat * 209928537448475264nat) % 2305843009213691579nat) * 4nat % 2305843009213691579nat == 707669582393425037nat) by (nonlinear_arith);
    lemma_generator_step(32767, 209928537448475264, 1, 707669582393425037);
    assert(((707669582393425037nat * 707669582393425037nat) % 2305843009213691579nat) * 4nat % 2305843009213691579nat == 2231189161773899849nat) by (nonlinear_arith);
    lemma_generator_step(65535, 707669582393425037, 1, 2231189161773899849);
    assert(((2231189161773899849nat * 2231189161773899849nat) % 2305843009213691579nat) * 4nat % 2305843009213691579nat == 2078535826235235084nat) by (nonlinear_arith);
    lemma_generator_step(131071, 2231189161773899849, 1, 2078535826235235084);
    assert(((2078535826235235084nat * 2078535826235235084nat) % 2305843009213691579nat) * 4nat % 2305843009213691579nat == 675324256960787593nat) by (nonlinear_arith);
    lemma_generator_step(262143, 2078535826235235084, 1, 675324256960787593);
    assert(((675324256960787593nat * 675324256960787593nat) % 2305843009213691579nat) * 4nat % 2305843009213691579nat == 386351507899569272nat) by (nonlinear_arith);
    lemma_generator_step(524287, 675324256960787593, 1, 386351507899569272);
}

/// The base point's power 1073741823.
proof fn lemma_generator_power_2()
    ensures
        pow_mod(4, 1073741823) == 2293346647820637931,
{
    lemma_generator_power_1();
    assert(((386351507899569272nat * 386351507899569272nat) % 2305843009213691579nat) * 4nat % 2305843009213691579nat == 1790863678208543529nat) by (nonlinear_arith);
    lemma_generator_step(1048575, 386351507899569272, 1, 1790863678208543529);
    assert(((1790863678208543529nat * 1790863678208543529nat) % 2305843009213691579nat) * 4nat % 2305843009213691579nat == 13746999205110874nat) by (nonlinear_arith);
    lemma_generator_step(2097151, 1790863678208543529, 1, 13746999205110874);
    assert(((13746999205110874nat * 13746999205110874nat) % 2305843009213691579nat) * 4nat % 2305843009213691579nat == 1009886858872733884nat) by (nonlinear_arith);
    lemma_generator_step(4194303, 13746999205110874, 1, 1009886858872733884);
    assert(((1009886858872733884nat * 1009886858872733884nat) % 2305843009213691579nat) * 4nat % 2305843009213691579nat == 286901536571055267nat) by (nonlinear_arith);
    lemma_generator_step(8388607, 1009886858872733884, 1, 286901536571055267);
    assert(((286901536571055267nat * 286901536571055267nat) % 2305843009213691579nat) * 4nat % 2305843009213691579nat == 2056258544719729663nat) by (nonlinear_arith);
    lemma_generator_step(16777215, 286901536571055267, 1, 2056258544719729663);
    assert(((2056258544719729663nat * 2056258544719729663nat) % 2305843009213691579nat) * 4nat % 2305843009213691579nat == 2033711724705963269nat) by (nonlinear_arith);
    lemma_generator_step(33554431, 2056258544719729663, 1, 2033711724705963269);
    assert(((2033711724705963269nat * 2033711724705963269nat) % 2305843009213691579nat) * 4nat % 2305843009213691579nat == 1105391816014708908nat) by (nonlinear_arith);
    lemma_generator_step(67108863, 2033711724705963269, 1, 1105391816014708908);
    assert(((1105391816014708908nat * 1105391816014708908nat) % 2305843009213691579nat) * 4nat % 2305843009213691579nat == 620121770988144077nat) by (nonlinear_arith);
    lemma_generator_step(134217727, 1105391816014708908, 1, 620121770988144077);
    assert(((620121770988144077nat * 620121770988144077nat) % 2305843009213691579nat) * 4nat % 2305843009213691579nat == 941854200449167144nat) by (nonlinear_arith);
    lemma_generator_step(268435455, 620121770988144077, 1, 941854200449167144);
    assert(((941854200449167144nat * 941854200449167144nat) % 2305843009213691579nat) * 4nat % 2305843009213691579nat == 2293346647820637931nat) by (nonlinear_arith);
    lemma_generator_step(536870911, 941854200449167144, 1, 2293346647820637931);
}

/// The base point's power 1099511627775.
proof fn lemma_generator_power_3()
    ensures
        pow_mod(4, 1099511627775) == 2170545151480107287,
{
    lemma_generator_power_2();
    assert(((2293346647820637931nat * 2293346647820637931nat) % 2305843009213691579nat) * 4nat % 2305843009213691579nat == 267231149181387093nat) by (nonlinear_arith);
    lemma_generator_step(1073741823, 2293346647820637931, 1, 267231149181387093);
    assert(((267231149181387093nat * 267231149181387093nat) % 2305843009213691579nat) * 4nat % 2305843009213691579nat == 1138792144258662634nat) by (nonlinear_arith);
    lemma_generator_step(2147483647, 267231149181387093, 1, 1138792144258662634);
    assert(((1138792144258662634nat * 1138792144258662634nat) % 2305843009213691579nat) * 4nat % 2305843009213691579nat == 609617378752346251nat) by (nonlinear_arith);
    lemma_generator_step(4294967295, 1138792144258662634, 1, 609617378752346251);
    assert(((609617378752346251nat * 609617378752346251nat) % 2305843009213691579nat) * 4nat % 2305843009213691579nat == 1003403282827603334nat) by (nonlinear_arith);
    lemma_generator_step(8589934591, 609617378752346251, 1, 1003403282827603334);
    assert(((1003403282827603334nat * 1003403282827603334nat) % 2305843009213691579nat) * 4nat % 2305843009213691579nat == 303318494586686548nat) by (nonlinear_arith);
    lemma_generator_step(17179869183, 1003403282827603334, 1, 303318494586686548);
    assert(((303318494586686548nat * 303318494586686548nat) % 2305843009213691579nat) * 4nat % 2305843009213691579nat == 540773049315510342nat) by (nonlinear_arith);
    lemma_generator_step(34359738367, 303318494586686548, 1, 540773049315510342);
    assert(((540773049315510342nat * 540773049315510342nat) % 2305843009213691579nat) * 4nat % 2305843009213691579nat == 1779389489567780285nat) by (nonlinear_arith);
    lemma_generator_step(68719476735, 540773049315510342, 1, 1779389489567780285);
    assert(((1779389489567780285nat * 1779389489567780285nat) % 2305843009213691579nat) * 4nat % 2305843009213691579nat == 372197564869102727nat) by (nonlinear_arith);
    lemma_generator_step(137438953471, 1779389489567780285, 1, 372197564869102727);
    assert(((372197564869102727nat * 372197564869102727nat) % 2305843009213691579nat) * 4nat % 2305843009213691579nat == 1311642203427689497nat) by (nonlinear_arith);
    lemma_generator_step(274877906943, 372197564869102727, 1, 1311642203427689497);
    assert(((1311642203427689497nat * 1311642203427689497nat) % 2305843009213691579nat) * 4nat % 2305843009213691579nat == 2170545151480107287nat) by (nonlinear_arith);
    lemma_generator_step(549755813887, 1311642203427689497, 1, 2170545151480107287);
}

/// The base point's power 1125899906842622.
proof fn lemma_generator_power_4()
    ensures
        pow_mod(4, 1125899906842622) == 87519438806437749,
{
    lemma_generator_power_3();
    assert(((2170545151480107287nat * 2170545151480107287nat) % 2305843009213691579nat) * 4nat % 2305843009213691579nat == 806430277895534323nat) by (nonlinear_arith);
    lemma_generator_step(1099511627775, 2170545151480107287, 1, 806430277895534323);
    assert(((806430277895534323nat * 806430277895534323nat) % 2305843009213691579nat) * 4nat % 2305843009213691579nat == 111400917043576510nat) by (nonlinear_arith);
    lemma_generator_step(2199023255551, 806430277895534323, 1, 111400917043576510);
    assert(((111400917043576510nat * 111400917043576510nat) % 2305843009213691579nat) * 4nat % 2305843009213691579nat == 2207145047819701231nat) by (nonlinear_arith);
    lemma_generator_step(4398046511103, 111400917043576510, 1, 2207145047819701231);
    assert(((2207145047819701231nat * 2207145047819701231nat) % 2305843009213691579nat) * 4nat % 2305843009213691579nat == 2027521856672095823nat) by (nonlinear_arith);
    lemma_generator_step(8796093022207, 2207145047819701231, 1, 2027521856672095823);
    assert(((2027521856672095823nat * 2027521856672095823nat) % 2305843009213691579nat) * 4nat % 2305843009213691579nat == 719738523440391433nat) by (nonlinear_arith);
    lemma_generator_step(17592186044415, 2027521856672095823, 1, 719738523440391433);
    assert(((719738523440391433nat * 719738523440391433nat) % 2305843009213691579nat) * 4nat % 2305843009213691579nat == 15514821358661701nat) by (nonlinear_arith);
    lemma_generator_step(35184372088831, 719738523440391433, 1, 15514821358661701);
    assert(((15514821358661701nat * 15514821358661701nat) % 2305843009213691579nat) * 4nat % 2305843009213691579nat == 1290217569213351600nat) by (nonlinear_arith);
    lemma_generator_step(70368744177663, 15514821358661701, 1, 1290217569213351600);
    assert(((1290217569213351600nat * 1290217569213351600nat) % 2305843009213691579nat) * 4nat % 2305843009213691579nat == 954863060386370618nat) by (nonlinear_arith);
    lemma_generator_step(140737488355327, 1290217569213351600, 1, 954863060386370618);
    assert(((954863060386370618nat * 954863060386370618nat) % 2305843009213691579nat) * 4nat % 2305843009213691579nat == 803543988418244561nat) by (nonlinear_arith);
    lemma_generator_step(281474976710655, 954863060386370618, 1, 803543988418244561);
    assert(((803543988418244561nat * 803543988418244561nat) % 2305843009213691579nat) * 1nat % 2305843009213691579nat == 87519438806437749nat) by (nonlinear_arith);
    lemma_generator_step(562949953421311, 803543988418244561, 0, 87519438806437749);
}

/// The base point's power 1152921504606845789.
proof fn lemma_generator_power_5()
    ensures
        pow_mod(4, 1152921504606845789) == 1,
{
    lemma_generator_power_4();
    assert(((87519438806437749nat * 87519438806437749nat) % 2305843009213691579nat) * 4nat % 2305843009213691579nat == 840397974936763255nat) by (nonlinear_arith);
    lemma_generator_step(1125899906842622, 87519438806437749, 1, 840397974936763255);
    assert(((840397974936763255nat * 840397974936763255nat) % 2305843009213691579nat) * 4nat % 2305843009213691579nat == 558398454691898802nat) by (nonlinear_arith);
    lemma_generator_step(2251799813685245, 840397974936763255, 1, 558398454691898802);
    assert(((558398454691898802nat * 558398454691898802nat) % 2305843009213691579nat) * 1nat % 2305843009213691579nat == 609223234518878213nat) by (nonlinear_arith);
    lemma_generator_step(4503599627370491, 558398454691898802, 0, 609223234518878213);
    assert(((609223234518878213nat * 609223234518878213nat) % 2305843009213691579nat) * 4nat % 2305843009213691579nat == 2041340141150023809nat) by (nonlinear_arith);
    lemma_generator_step(9007199254740982, 609223234518878213, 1, 2041340141150023809);
    assert(((2041340141150023809nat * 2041340141150023809nat) % 2305843009213691579nat) * 1nat % 2305843009213691579nat == 387531667885105697nat) by (nonlinear_arith);
    lemma_generator_step(18014398509481965, 2041340141150023809, 0, 387531667885105697);
    assert(((387531667885105697nat * 387531667885105697nat) % 2305843009213691579nat) * 4nat % 2305843009213691579nat == 972862928047093370nat) by (nonlinear_arith);
    lemma_generator_step(36028797018963930, 387531667885105697, 1, 972862928047093370);
    assert(((972862928047093370nat * 972862928047093370nat) % 2305843009213691579nat) * 4nat % 2305843009213691579nat == 432682652315035975nat) by (nonlinear_arith);
    lemma_generator_step(72057594037927861, 972862928047093370, 1, 432682652315035975);
    assert(((432682652315035975nat * 432682652315035975nat) % 2305843009213691579nat) * 4nat % 2305843009213691579nat == 1106810577694160675nat) by (nonlinear_arith);
    lemma_generator_step(144115188075855723, 432682652315035975, 1, 1106810577694160675);
    assert(((1106810577694160675nat * 1106810577694160675nat) % 2305843009213691579nat) * 1nat % 2305843009213691579nat == 1152921504606845789nat) by (nonlinear_arith);
    lemma_generator_step(288230376151711447, 1106810577694160675, 0, 1152921504606845789);
    assert(((1152921504606845789nat * 1152921504606845789nat) % 2305843009213691579nat) * 4nat % 2305843009213691579nat == 1nat) by (nonlinear_arith);
    lemma_generator_step(576460752303422894, 1152921504606845789, 1, 1);
}

/// The base point lies in the group.
pub proof fn lemma_generator_in_group()
    ensures
        in_group(GENERATOR as nat),
{
    lemma_generator_power_5();
}

/// A product that reduces to zero has only powers that reduce to zero.
proof fn lemma_zero_residue_power(v: nat, e: nat)
    requires
        v % (MODULUS as nat) == 0,
        e > 0,
    ensures
        pow_mod(v, e) == 0,
{
    lemma_pow_mod_noop(v as int, e, MODULUS as int);
    lemma0_pow(e);
}

/// The group is closed under its operation.
pub proof fn lemma_mul_closed(a: nat, b: nat)
    requires
        in_group(a),
        in_group(b),
    ensures
        in_group(mul_mod(a, b)),
{
    let m = MODULUS as int;
    let q = ORDER as nat;
    let ab = a * b;
    lemma_pow_mod_noop(ab as int, q, m);
    lemma_pow_distributes(a as int, b as int, q);
    lemma_mul_mod_noop(pow(a as int, q), pow(b as int, q), m);
    assert(pow_mod(ab, q) == 1);
    assert(pow_mod(mul_mod(a, b), q) == 1);
    if mul_mod(a, b) == 0 {
        lemma_zero_residue_power(ab, q);
    }
}

/// The group is closed under powers.
pub proof fn lemma_pow_closed(a: nat, k: nat)
    requires
        in_group(a),
    ensures
        in_group(pow_mod(a, k)),
{
    let m = MODULUS as int;
    let q = ORDER as nat;
    let ak = pow(a as int, k);
    lemma_pow_nonneg(a, k);
    lemma_pow_mod_noop(ak, q, m);
    lemma_pow_multiplies(a as int, k, q);
    lemma_pow_multiplies(a as int, q, k);
    assert(k * q == q * k) by (nonlinear_arith);
    assert(pow(ak, q) == pow(pow(a as int, q), k));
    lemma_pow_mod_noop(pow(a as int, q), k, m);
    lemma1_pow(k);
    assert(pow_mod(pow_mod(a, k), q) == 1);
    if pow_mod(a, k) == 0 {
        lemma_zero_residue_power(ak as nat, q);
    }
}

/// Exponents of a group element count modulo the order.
pub proof fn lemma_pow_mod_order(b: nat, e: nat, k: nat)
    requires
        in_group(b),
    ensures
        pow_mod(b, e + k * (ORDER as nat)) == pow_mod(b, e),
{
    let m = MODULUS as int;
    let q = ORDER as nat;
    let bi = b as int;
    lemma_pow_adds(bi, e, k * q);
    lemma_pow_multiplies(bi, q, k);
    assert(q * k == k * q) by (nonlinear_arith);
    lemma_mul_mod_noop(pow(bi, e), pow(bi, k * q), m);
    lemma_pow_mod_noop(pow(bi, q), k, m);
    lemma1_pow(k);
    assert(pow(bi, k * q) % m == 1);
    assert((pow(bi, e) % m) * 1 == pow(bi, e) % m);
    lemma_mod_twice(pow(bi, e), m);
}

/// The response `alpha - c * x` closes a commitment: with the public
/// power `b^x`, the element `b^s * (b^x)^c` is the commitment `b^alpha`.
pub proof fn lemma_response_closes(b: nat, x: nat, c: nat, alpha: nat)
    requires
        in_group(b),
        x < ORDER,
        c < ORDER,
        alpha < ORDER,
    ensures
        mul_mod(
            pow_mod(b, scalar_difference(alpha, scalar_product(c, x))),
            pow_mod(pow_mod(b, x), c),
        ) == pow_mod(b, alpha),
{
    let m = MODULUS as int;
    let q = ORDER as int;
    let bi = b as int;
    let cx = scalar_product(c, x);
    let s = scalar_difference(alpha, cx);
    let d1 = (alpha as int - cx as int) / q;
    let d2 = ((c * x) as int) / q;
    lemma_fundamental_div_mod(alpha as int - cx as int, q);
    lemma_fundamental_div_mod((c * x) as int, q);
    let k = d2 - d1;
    assert(q * d2 - q * d1 == q * k) by (nonlinear_arith)
        requires
            k == d2 - d1,
    ;
    assert(s + c * x == alpha + q * k);
    assert(c * x >= 0) by (nonlinear_arith)
        requires
            c >= 0,
            x >= 0,
    ;
    assert(k >= 0) by (nonlinear_arith)
        requires
            q * k > -q,
            q > 0,
    ;
    assert(q * k == (k as nat) * (ORDER as nat)) by (nonlinear_arith)
        requires
            k >= 0,
            q == ORDER as int,
    ;
    lemma_pow_mod_order(b, alpha, k as nat);
    assert(pow_mod(b, s + c * x) == pow_mod(b, alpha));
    lemma_pow_nonneg(b, x);
    lemma_pow_mod_noop(pow(bi, x), c, m);
    lemma_pow_multiplies(bi, x, c);
    assert(x * c == c * x) by (nonlinear_arith);
    assert(pow_mod(pow_mod(b, x), c) == pow_mod(b, c * x));
    lemma_pow_adds(bi, s, c * x);
    lemma_mul_mod_noop(pow(bi, s), pow(bi, c * x), m);
}

} // verus!
