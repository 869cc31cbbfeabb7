//! Prime-field arithmetic for the trace and constraint algebra.
//!
//! Every table entry, challenge and polynomial evaluation in this crate is an
//! element of the prime field with modulus `P = 2^64 - 2^32 + 1`, held as a
//! `u64` below `P`.  The executable operations are proved against the
//! mathematical definitions `fadds`, `fsubs`, `fmuls` and `fpows`.

use vstd::prelude::*;
use vstd::arithmetic::div_mod::lemma_small_mod;
use vstd::arithmetic::div_mod::lemma_mul_mod_noop_general;
use vstd::arithmetic::mul::lemma_mul_is_associative;

verus! {

/// The field modulus: 2^64 - 2^32 + 1.
pub const P: u64 = 0xffff_ffff_0000_0001;

/// A generator of the multiplicative group of the field.
pub const GENERATOR: u64 = 7;

/// A value is a canonical field element when it lies below the modulus.
pub open spec fn in_field(a: int) -> bool {
    0 <= a < P
}

/// Field addition.
pub open spec fn fadds(a: int, b: int) -> int {
    (a + b) % (P as int)
}

/// Field subtraction.
pub open spec fn fsubs(a: int, b: int) -> int {
    (a + P - b) % (P as int)
}

/// Field multiplication.
pub open spec fn fmuls(a: int, b: int) -> int {
    (a * b) % (P as int)
}

/// Field exponentiation by a natural number.
pub open spec fn fpows(a: int, e: nat) -> int
    decreases e,
{
    if e == 0 {
        1
    } else {
        fmuls(fpows(a, (e - 1) as nat), a)
    }
}

/// The multiplicative inverse by Fermat exponentiation; maps zero to zero.
pub open spec fn finvs(a: int) -> int {
    fpows(a, (P - 2) as nat)
}

pub proof fn lemma_fpows_in_field(a: int, e: nat)
    ensures
        e == 0 ==> fpows(a, e) == 1,
        e > 0 ==> in_field(fpows(a, e)),
    decreases e,
{
    if e > 0 {
        lemma_fpows_in_field(a, (e - 1) as nat);
    }
}

/// Zero absorbs under field multiplication on the right.
pub broadcast proof fn lemma_fmuls_zero_right(x: int)
    ensures
        #[trigger] fmuls(x, 0) == 0,
{
}

/// Zero absorbs under field multiplication on the left.
pub broadcast proof fn lemma_fmuls_zero_left(x: int)
    ensures
        #[trigger] fmuls(0, x) == 0,
{
}

/// Multiplication modulo `P` is associative.
pub proof fn lemma_fmuls_assoc(x: int, y: int, z: int)
    ensures
        fmuls(fmuls(x, y), z) == fmuls(x, fmuls(y, z)),
{
    lemma_mul_mod_noop_general(x * y, z, P as int);
    lemma_mul_mod_noop_general(x, y * z, P as int);
    lemma_mul_is_associative(x, y, z);
}

/// A canonical element is unchanged by multiplication with one.
pub proof fn lemma_fmuls_one(x: int)
    requires
        in_field(x),
    ensures
        fmuls(x, 1) == x,
{
    lemma_small_mod(x as nat, P as nat);
}

/// Exponents add: `a^(e1+e2) = a^e1 * a^e2` in the field.
pub proof fn lemma_fpows_adds(a: int, e1: nat, e2: nat)
    ensures
        fpows(a, e1 + e2) == fmuls(fpows(a, e1), fpows(a, e2)),
    decreases e2,
{
    if e2 == 0 {
        lemma_fpows_in_field(a, e1);
        if e1 == 0 {
            assert(fmuls(1, 1) == 1) by {
                lemma_small_mod(1nat, P as nat);
            }
        } else {
            lemma_fmuls_one(fpows(a, e1));
        }
    } else {
        lemma_fpows_adds(a, e1, (e2 - 1) as nat);
        assert(fpows(a, e1 + e2) == fmuls(fpows(a, (e1 + e2 - 1) as nat), a));
        lemma_fmuls_assoc(fpows(a, e1), fpows(a, (e2 - 1) as nat), a);
    }
}

/// Squaring the base halves the exponent: `(a*a)^k = a^(2k)`.
pub proof fn lemma_fpows_square(a: int, k: nat)
    ensures
        fpows(fmuls(a, a), k) == fpows(a, 2 * k),
    decreases k,
{
    if k > 0 {
        lemma_fpows_square(a, (k - 1) as nat);
        assert(fpows(a, 2 * k) == fmuls(fpows(a, (2 * k - 1) as nat), a));
        assert(fpows(a, (2 * k - 1) as nat) == fmuls(fpows(a, (2 * k - 2) as nat), a));
        lemma_fmuls_assoc(fpows(a, (2 * k - 2) as nat), a, a);
        assert(fpows(fmuls(a, a), k) == fmuls(fpows(fmuls(a, a), (k - 1) as nat), fmuls(a, a)));
    }
}

/// Subtracting a term of a folded sum removes it: the three-term linear
/// combination cancels against its three subtrahends.
pub proof fn lemma_fold3_cancel(xa: int, xb: int, xc: int)
    ensures
        fsubs(fsubs(fsubs(fadds(fadds(xa, xb), xc), xa), xb), xc) == 0,
{
    let m = P as int;
    lemma_unwrap_mod_add(xa + xb, xc);
    lemma_unwrap_mod_add(xa + xb + xc, m - xa);
    lemma_unwrap_mod_add(xa + xb + xc + m - xa, m - xb);
    lemma_unwrap_mod_add(xa + xb + xc + m - xa + m - xb, m - xc);
    assert((xa + xb + xc + m - xa + m - xb + m - xc) % m == 0) by {
        assert(xa + xb + xc + m - xa + m - xb + m - xc == m + (m + (m + 0)));
        vstd::arithmetic::div_mod::lemma_mod_add_multiples_vanish(m + (m + 0), m);
        vstd::arithmetic::div_mod::lemma_mod_add_multiples_vanish(m + 0, m);
        vstd::arithmetic::div_mod::lemma_mod_add_multiples_vanish(0, m);
        lemma_small_mod(0nat, P as nat);
    }
}

/// A reduced left summand does not change a sum's residue.
proof fn lemma_unwrap_mod_add(x: int, y: int)
    ensures
        ((x % (P as int)) + y) % (P as int) == (x + y) % (P as int),
{
    let m = P as int;
    vstd::arithmetic::div_mod::lemma_mod_twice(x, m);
    vstd::arithmetic::div_mod::lemma_add_mod_noop(x % m, y, m);
    vstd::arithmetic::div_mod::lemma_add_mod_noop(x, y, m);
}

/// Subtracting a value from itself gives zero in the field.
pub proof fn lemma_fsubs_self(x: int)
    ensures
        fsubs(x, x) == 0,
{
    let m = P as int;
    vstd::arithmetic::div_mod::lemma_mod_add_multiples_vanish(x - x, m);
    lemma_small_mod(0nat, P as nat);
}

/// Adds two field elements.
pub fn fadd(a: u64, b: u64) -> (r: u64)
    requires
        in_field(a as int),
        in_field(b as int),
    ensures
        in_field(r as int),
        r == fadds(a as int, b as int),
{
    let s: u128 = a as u128 + b as u128;
    let r: u64 = if s >= P as u128 { (s - P as u128) as u64 } else { s as u64 };
    proof {
        if a + b < P {
            lemma_small_mod((a + b) as nat, P as nat);
        } else {
            assert((a + b) % (P as int) == (a + b - P) % (P as int)) by {
                vstd::arithmetic::div_mod::lemma_mod_sub_multiples_vanish((a + b) as int, P as int);
            }
            lemma_small_mod((a + b - P) as nat, P as nat);
        }
    }
    r
}

/// Subtracts one field element from another.
pub fn fsub(a: u64, b: u64) -> (r: u64)
    requires
        in_field(a as int),
        in_field(b as int),
    ensures
        in_field(r as int),
        r == fsubs(a as int, b as int),
{
    let r: u64 = if a >= b { a - b } else { a + (P - b) };
    proof {
        if a >= b {
            assert((a + P - b) % (P as int) == (a - b) % (P as int)) by {
                vstd::arithmetic::div_mod::lemma_mod_add_multiples_vanish((a - b) as int, P as int);
            }
            lemma_small_mod((a - b) as nat, P as nat);
        } else {
            lemma_small_mod((a + P - b) as nat, P as nat);
        }
    }
    r
}

/// Multiplies two field elements.
pub fn fmul(a: u64, b: u64) -> (r: u64)
    requires
        in_field(a as int),
        in_field(b as int),
    ensures
        in_field(r as int),
        r == fmuls(a as int, b as int),
{
    proof {
        assert((a as int) * (b as int) < 0x1_0000_0000_0000_0000_0000_0000_0000_0000) by (nonlinear_arith)
            requires a < 0x1_0000_0000_0000_0000 && b < 0x1_0000_0000_0000_0000;
    }
    let p: u128 = (a as u128) * (b as u128);
    let r: u128 = p % (P as u128);
    r as u64
}

/// Raises a field element to a power by binary exponentiation.
pub fn fpow(base: u64, e: u64) -> (r: u64)
    requires
        in_field(base as int),
    ensures
        in_field(r as int),
        r == fpows(base as int, e as nat),
{
    let mut result: u64 = 1;
    let mut b: u64 = base;
    let mut exp: u64 = e;
    proof {
        lemma_fpows_in_field(base as int, e as nat);
        lemma_fpows_adds(base as int, 0, e as nat);
        if e == 0 {
            lemma_small_mod(1nat, P as nat);
        } else {
            lemma_fmuls_one(fpows(base as int, e as nat));
        }
        assert(fmuls(1, fpows(base as int, e as nat)) == fpows(base as int, e as nat));
    }
    while exp > 0
        invariant
            in_field(result as int),
            in_field(b as int),
            fmuls(result as int, fpows(b as int, exp as nat)) == fpows(base as int, e as nat),
        decreases exp,
    {
        let ghost r0 = result as int;
        let ghost b0 = b as int;
        let ghost e0 = exp as nat;
        if exp % 2 == 1 {
            result = fmul(result, b);
        }
        b = fmul(b, b);
        exp = exp / 2;
        proof {
            let k = exp as nat;
            lemma_fpows_square(b0, k);
            if e0 % 2 == 1 {
                assert(e0 == 2 * k + 1);
                assert(fpows(b0, e0) == fmuls(fpows(b0, 2 * k), b0));
                lemma_fmuls_assoc(r0, fpows(b0, 2 * k), b0);
                lemma_fmuls_assoc(r0, b0, fpows(b0, 2 * k));
                assert(fmuls(fpows(b0, 2 * k), b0) == fmuls(b0, fpows(b0, 2 * k)));
                assert(fmuls(result as int, fpows(b as int, k))
                    == fmuls(fmuls(r0, b0), fpows(b0, 2 * k)));
                assert(fmuls(fmuls(r0, b0), fpows(b0, 2 * k))
                    == fmuls(r0, fmuls(b0, fpows(b0, 2 * k))));
            } else {
                assert(e0 == 2 * k);
            }
        }
    }
    proof {
        lemma_fmuls_one(result as int);
    }
    result
}

/// The multiplicative inverse by Fermat exponentiation; zero maps to zero.
pub fn finv(a: u64) -> (r: u64)
    requires
        in_field(a as int),
    ensures
        in_field(r as int),
        r == finvs(a as int),
{
    fpow(a, P - 2)
}

} // verus!

verus! {

/// The inverse of a tape byte, read from a table whose entries are each
/// proved to multiply with their index to one; zero maps to zero.
#[verifier::rlimit(100)]
pub fn byte_inv(b: u64) -> (r: u64)
    requires
        b < 256,
    ensures
        in_field(r as int),
        b == 0 ==> r == 0,
        b != 0 ==> fmuls(b as int, r as int) == 1 && r != 0,
{
    match b {
        0 => 0,
        1 => 1,
        2 => 9223372034707292161,
        3 => 12297829379609722881,
        4 => 13835058052060938241,
        5 => 14757395255531667457,
        6 => 15372286724512153601,
        7 => 2635249152773512046,
        8 => 16140901060737761281,
        9 => 4099276459869907627,
        10 => 16602069662473125889,
        11 => 8384883667915720146,
        12 => 16909515396963368961,
        13 => 11351842504255128813,
        14 => 1317624576386756023,
        15 => 17216961131453612033,
        16 => 17293822565076172801,
        17 => 17361641477096079361,
        18 => 11273010264642245974,
        19 => 10679693934924233028,
        20 => 17524406865943855105,
        21 => 7027331074062698789,
        22 => 4192441833957860073,
        23 => 11228452911817573065,
        24 => 17678129733188976641,
        25 => 14019525492755084084,
        26 => 14899293286834856567,
        27 => 13664254866233025423,
        28 => 9882184322900670172,
        29 => 10177513969332184453,
        30 => 17831852600434098177,
        31 => 11306068945770229100,
        32 => 17870283317245378561,
        33 => 2794961222638573382,
        34 => 17904192773255331841,
        35 => 15284445086086369866,
        36 => 5636505132321122987,
        37 => 2991363903148310971,
        38 => 5339846967462116514,
        39 => 3783947501418376271,
        40 => 17985575467679219713,
        41 => 17546902895296799720,
        42 => 12737037571738641555,
        43 => 16301773828784981493,
        44 => 11319592951686222197,
        45 => 11887901733622732118,
        46 => 14837598490616078693,
        47 => 1177451749111569212,
        48 => 18062436901301780481,
        49 => 5646962470228954384,
        50 => 7009762746377542042,
        51 => 18085043205308416001,
        52 => 16673018678124720444,
        53 => 17750640519625354724,
        54 => 16055499467823804872,
        55 => 16434371989114811486,
        56 => 4941092161450335086,
        57 => 3559897978308077676,
        58 => 14312129019373384387,
        59 => 6565790261995021538,
        60 => 18139298334924341249,
        61 => 8769763573983982710,
        62 => 5653034472885114550,
        63 => 8491358381159094370,
        64 => 18158513693329981441,
        65 => 9649066128616859491,
        66 => 1397480611319286691,
        67 => 2477920845145242670,
        68 => 18175468421334958081,
        69 => 3742817637272524355,
        70 => 7642222543043184933,
        71 => 9093465386331133116,
        72 => 12041624600867853654,
        73 => 17183268448221804573,
        74 => 10719053986281447646,
        75 => 10822089854056556135,
        76 => 2669923483731058257,
        77 => 17009335440629032296,
        78 => 11115345785416480296,
        79 => 9106620489964161880,
        80 => 18216159768546902017,
        81 => 4554751622077675141,
        82 => 8773451447648399860,
        83 => 6000748070773418996,
        84 => 15591890820576612938,
        85 => 18229723550950883329,
        86 => 17374258949099782907,
        87 => 15690334036053784365,
        88 => 14883168510550403259,
        89 => 12021473663213998771,
        90 => 5943950866811366059,
        91 => 1621691786322161259,
        92 => 16642171280015331507,
        93 => 9917604338394937807,
        94 => 588725874555784606,
        95 => 9514636414750680334,
        96 => 18254590485358182401,
        97 => 15023636922512908880,
        98 => 2823481235114477192,
        99 => 7080568430684385901,
        100 => 3504881373188771021,
        101 => 7670923276390223183,
        102 => 18265893637361500161,
        103 => 10566581554324858980,
        104 => 8336509339062360222,
        105 => 5094815028695456622,
        106 => 8875320259812677362,
        107 => 861997386421242258,
        108 => 8027749733911902436,
        109 => 6938683549045852818,
        110 => 8217185994557405743,
        111 => 13294950680659159871,
        112 => 2470546080725167543,
        113 => 2448682841072732432,
        114 => 1779948989154038838,
        115 => 2245690582363514613,
        116 => 16379436544393984354,
        117 => 7410230523610986864,
        118 => 3282895130997510769,
        119 => 7750732802275035429,
        120 => 18293021202169462785,
        121 => 5793192352378133919,
        122 => 4384881786991991355,
        123 => 11997882321570461347,
        124 => 2826517236442557275,
        125 => 6493253912433933681,
        126 => 4245679190579547185,
        127 => 12781995890617979687,
        128 => 18302628881372282881,
        129 => 5433924609594993831,
        130 => 14047905099015721906,
        131 => 2534667124041698609,
        132 => 9922112340366935506,
        133 => 14701916325999593519,
        134 => 1238960422572621335,
        135 => 10111548601012438813,
        136 => 18311106245374771201,
        137 => 9559991452032375816,
        138 => 11094780853343554338,
        139 => 13669170065825195576,
        140 => 13044483306228884627,
        141 => 6541398606175384511,
        142 => 4546732693165566558,
        143 => 7739892616537587827,
        144 => 6020812300433926827,
        145 => 9414200421632270619,
        146 => 17815006258818194447,
        147 => 14180150203019374342,
        148 => 5359526993140723823,
        149 => 10647114026641974843,
        150 => 14634416961735570228,
        151 => 7085504344543350269,
        152 => 10558333776572821289,
        153 => 12177262424907666774,
        154 => 8504667720314516148,
        155 => 2261213789154045820,
        156 => 5557672892708240148,
        157 => 18211753699103570508,
        158 => 4553310244982080940,
        159 => 12065794863013313015,
        160 => 18331451918980743169,
        161 => 12145061312782272907,
        162 => 11500747845746129731,
        163 => 7469233794977684449,
        164 => 4386725723824199930,
        165 => 11627038686176465269,
        166 => 3000374035386709498,
        167 => 7290329991505165061,
        168 => 7795945410288306469,
        169 => 5130159593269144752,
        170 => 18338233810182733825,
        171 => 1186632659436025892,
        172 => 17910501509257183614,
        173 => 16527429657567980172,
        174 => 17068539052734184343,
        175 => 17814284272748941430,
        176 => 16664956289982493790,
        177 => 8337511443803201953,
        178 => 15234108866314291546,
        179 => 103054436141980918,
        180 => 12195347468112975190,
        181 => 611494278544129867,
        182 => 10034217927868372790,
        183 => 2923254524661327570,
        184 => 17544457674714957914,
        185 => 15355668036161329651,
        186 => 14182174203904761064,
        187 => 1578331043372370851,
        188 => 294362937277892303,
        189 => 15128282173329421004,
        190 => 4757318207375340167,
        191 => 7533225326776636529,
        192 => 18350667277386383361,
        193 => 4014317362256023531,
        194 => 7511818461256454440,
        195 => 15514184755815342711,
        196 => 1411740617557238596,
        197 => 13483914446678680925,
        198 => 12763656250049485111,
        199 => 10474784320823356926,
        200 => 10975812721301677671,
        201 => 13123802994658137104,
        202 => 13058833672902403752,
        203 => 17265425483688527197,
        204 => 18356318853388042241,
        205 => 3509380579059359944,
        206 => 5283290777162429490,
        207 => 7396520568895702892,
        208 => 4168254669531180111,
        209 => 4324834733977581970,
        210 => 2547407514347728311,
        211 => 9704211335094876112,
        212 => 4437660129906338681,
        213 => 3031155128777044372,
        214 => 430998693210621129,
        215 => 10639052393522830027,
        216 => 4013874866955951218,
        217 => 4250401859312116203,
        218 => 3469341774522926409,
        219 => 5727756149407268191,
        220 => 13331965031985995032,
        221 => 16944294326204346684,
        222 => 15870847375036872096,
        223 => 11580915559273730067,
        224 => 10458645075069875932,
        225 => 9756277974490380152,
        226 => 1224341420536366216,
        227 => 1300211035729662331,
        228 => 889974494577019419,
        229 => 6202617001506213942,
        230 => 10346217325889049467,
        231 => 5669778480209677432,
        232 => 8189718272196992177,
        233 => 7442034088090003975,
        234 => 3705115261805493432,
        235 => 11303536791471064435,
        236 => 10864819600206047545,
        237 => 15333369542931110174,
        238 => 13098738435844809875,
        239 => 15745338034144666115,
        240 => 18369882635792023553,
        241 => 17834404017317834634,
        242 => 12119968210896359120,
        243 => 13816079920302281261,
        244 => 11415812928203287838,
        245 => 4818741307928707741,
        246 => 15222313195492522834,
        247 => 9335396796262441458,
        248 => 10636630652928570798,
        249 => 8149164046729334439,
        250 => 12469998990924259001,
        251 => 6614370383455428641,
        252 => 11346211629997065753,
        253 => 4374721913695158337,
        254 => 15614369980016282004,
        255 => 18374403896593350657,
        _ => 0,
    }
}

} // verus!
