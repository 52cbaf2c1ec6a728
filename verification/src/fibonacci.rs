//! Fibonacci numbers, with the sequence continued to negative indices.
//!
//! Going backwards from zero the recurrence gives 1, -1, 2, -3, 5, ...: the
//! number at `-n` is the number at `n`, negative when `n` is even.

use vstd::prelude::*;

pub mod memo;

verus! {

/// Largest index, in either direction, whose Fibonacci number fits in 64
/// bits.
pub const MAX_INDEX: i64 = 92;

/// The Fibonacci number at the largest index.
pub const MAX_FIBONACCI: i64 = 7_540_113_804_746_346_429;

/// The Fibonacci number at index `n`: zero at 0, one at 1 and at -1, the sum
/// of the two before it above 1, and below -1 the difference of the two
/// after it.
pub open spec fn fib(n: int) -> int
    decreases
            if n >= 0 {
                n
            } else {
                -n
            },
{
    if n == 0 {
        0
    } else if n == 1 || n == -1 {
        1
    } else if n > 1 {
        fib(n - 1) + fib(n - 2)
    } else {
        fib(n + 2) - fib(n + 1)
    }
}

/// From index 0 on the numbers are never negative and never decrease.
pub proof fn lemma_fib_monotone(i: int, j: int)
    requires
        0 <= i <= j,
    ensures
        0 <= fib(i) <= fib(j),
    decreases j,
{
    if j >= 2 {
        lemma_fib_monotone(0, j - 2);
        if i < j {
            lemma_fib_monotone(i, j - 1);
        } else {
            lemma_fib_monotone(0, j - 1);
        }
    } else if i < j {
        lemma_fib_monotone(i, j - 1);
    }
}

/// The number at `-n` is the number at `n` if `n` is odd, and its negative
/// if `n` is even.
pub proof fn lemma_fib_mirror(n: int)
    requires
        n >= 0,
    ensures
        fib(-n) == if n % 2 == 1 {
            fib(n)
        } else {
            -fib(n)
        },
    decreases n,
{
    if n >= 2 {
        lemma_fib_mirror(n - 1);
        lemma_fib_mirror(n - 2);
    }
}

/// The numbers up to the largest index, one by one.
pub proof fn lemma_fib_max()
    ensures
        fib(MAX_INDEX as int) == MAX_FIBONACCI,
{
    assert(fib(0) == 0);
    assert(fib(1) == 1);
    assert(fib(2) == 1);
    assert(fib(3) == 2);
    assert(fib(4) == 3);
    assert(fib(5) == 5);
    assert(fib(6) == 8);
    assert(fib(7) == 13);
    assert(fib(8) == 21);
    assert(fib(9) == 34);
    assert(fib(10) == 55);
    assert(fib(11) == 89);
    assert(fib(12) == 144);
    assert(fib(13) == 233);
    assert(fib(14) == 377);
    assert(fib(15) == 610);
    assert(fib(16) == 987);
    assert(fib(17) == 1_597);
    assert(fib(18) == 2_584);
    assert(fib(19) == 4_181);
    assert(fib(20) == 6_765);
    assert(fib(21) == 10_946);
    assert(fib(22) == 17_711);
    assert(fib(23) == 28_657);
    assert(fib(24) == 46_368);
    assert(fib(25) == 75_025);
    assert(fib(26) == 121_393);
    assert(fib(27) == 196_418);
    assert(fib(28) == 317_811);
    assert(fib(29) == 514_229);
    assert(fib(30) == 832_040);
    assert(fib(31) == 1_346_269);
    assert(fib(32) == 2_178_309);
    assert(fib(33) == 3_524_578);
    assert(fib(34) == 5_702_887);
    assert(fib(35) == 9_227_465);
    assert(fib(36) == 14_930_352);
    assert(fib(37) == 24_157_817);
    assert(fib(38) == 39_088_169);
    assert(fib(39) == 63_245_986);
    assert(fib(40) == 102_334_155);
    assert(fib(41) == 165_580_141);
    assert(fib(42) == 267_914_296);
    assert(fib(43) == 433_494_437);
    assert(fib(44) == 701_408_733);
    assert(fib(45) == 1_134_903_170);
    assert(fib(46) == 1_836_311_903);
    assert(fib(47) == 2_971_215_073);
    assert(fib(48) == 4_807_526_976);
    assert(fib(49) == 7_778_742_049);
    assert(fib(50) == 12_586_269_025);
    assert(fib(51) == 20_365_011_074);
    assert(fib(52) == 32_951_280_099);
    assert(fib(53) == 53_316_291_173);
    assert(fib(54) == 86_267_571_272);
    assert(fib(55) == 139_583_862_445);
    assert(fib(56) == 225_851_433_717);
    assert(fib(57) == 365_435_296_162);
    assert(fib(58) == 591_286_729_879);
    assert(fib(59) == 956_722_026_041);
    assert(fib(60) == 1_548_008_755_920);
    assert(fib(61) == 2_504_730_781_961);
    assert(fib(62) == 4_052_739_537_881);
    assert(fib(63) == 6_557_470_319_842);
    assert(fib(64) == 10_610_209_857_723);
    assert(fib(65) == 17_167_680_177_565);
    assert(fib(66) == 27_777_890_035_288);
    assert(fib(67) == 44_945_570_212_853);
    assert(fib(68) == 72_723_460_248_141);
    assert(fib(69) == 117_669_030_460_994);
    assert(fib(70) == 190_392_490_709_135);
    assert(fib(71) == 308_061_521_170_129);
    assert(fib(72) == 498_454_011_879_264);
    assert(fib(73) == 806_515_533_049_393);
    assert(fib(74) == 1_304_969_544_928_657);
    assert(fib(75) == 2_111_485_077_978_050);
    assert(fib(76) == 3_416_454_622_906_707);
    assert(fib(77) == 5_527_939_700_884_757);
    assert(fib(78) == 8_944_394_323_791_464);
    assert(fib(79) == 14_472_334_024_676_221);
    assert(fib(80) == 23_416_728_348_467_685);
    assert(fib(81) == 37_889_062_373_143_906);
    assert(fib(82) == 61_305_790_721_611_591);
    assert(fib(83) == 99_194_853_094_755_497);
    assert(fib(84) == 160_500_643_816_367_088);
    assert(fib(85) == 259_695_496_911_122_585);
    assert(fib(86) == 420_196_140_727_489_673);
    assert(fib(87) == 679_891_637_638_612_258);
    assert(fib(88) == 1_100_087_778_366_101_931);
    assert(fib(89) == 1_779_979_416_004_714_189);
    assert(fib(90) == 2_880_067_194_370_816_120);
    assert(fib(91) == 4_660_046_610_375_530_309);
    assert(fib(92) == 7_540_113_804_746_346_429);
}

/// Every number whose index is within the largest index, in either
/// direction, fits in 64 bits.
pub proof fn lemma_fib_fits(n: int)
    requires
        -MAX_INDEX <= n <= MAX_INDEX,
    ensures
        -MAX_FIBONACCI <= fib(n) <= MAX_FIBONACCI,
{
    lemma_fib_max();
    if n >= 0 {
        lemma_fib_monotone(n, MAX_INDEX as int);
    } else {
        lemma_fib_monotone(-n, MAX_INDEX as int);
        lemma_fib_mirror(-n);
    }
}

/// The Fibonacci number at index `n`.
pub fn fibonacci(n: i64) -> (value: i64)
    requires
        -MAX_INDEX <= n <= MAX_INDEX,
    ensures
        value == fib(n as int),
{
    let count: i64 = if n >= 0 {
        n
    } else {
        -n
    };
    if count == 0 {
        return 0;
    }
    let mut previous: i64 = 0;
    let mut current: i64 = 1;
    let mut index: i64 = 1;
    while index < count
        invariant
            1 <= index <= count <= MAX_INDEX,
            previous == fib(index - 1),
            current == fib(index as int),
        decreases count - index,
    {
        proof {
            lemma_fib_fits(index - 1);
            lemma_fib_fits(index as int);
            lemma_fib_fits(index + 1);
        }
        let next: i64 = previous + current;
        previous = current;
        current = next;
        index = index + 1;
    }
    proof {
        lemma_fib_fits(count as int);
        lemma_fib_mirror(count as int);
    }
    if n < 0 && count % 2 == 0 {
        -current
    } else {
        current
    }
}

} // verus!
