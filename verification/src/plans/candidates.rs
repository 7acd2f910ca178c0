//! Account-local candidate scoring: signal atoms normalized to
//! -10000..=10000 basis points, blended by the account's analysis weights,
//! and converted to target weights and share quantities.
use vstd::prelude::*;

use super::allocation::small_ratio;
use crate::ids::{Money, StockCode};
use crate::rounding::{
    abs, half_even_ok, lemma_half_even_from_parts, lemma_half_even_neg, lemma_round_half_even_is,
    lemma_round_half_even_within, round_half_even,
};

verus! {

/// Board lot of mainland A shares.
pub const A_SHARE_BOARD_LOT: u32 = 100;

/// A signal score within -10000..=10000 basis points.
#[derive(Clone, Copy, Debug, PartialEq, Eq, PartialOrd, Ord)]
pub struct SignalScore(i32);

impl View for SignalScore {
    type V = int;

    closed spec fn view(&self) -> int {
        self.0 as int
    }
}

impl SignalScore {
    #[verifier::type_invariant]
    closed spec fn bounded_inv(self) -> bool {
        -10_000 <= self.0 <= 10_000
    }

    pub fn new(value: i32) -> (r: Result<SignalScore, CandidateError>)
        ensures
            match r {
                Ok(s) => -10_000 <= value <= 10_000 && s@ == value,
                Err(e) => !(-10_000 <= value <= 10_000) && e == CandidateError::InvalidSignalScore { value },
            },
    {
        if !(-10_000 <= value && value <= 10_000) {
            return Err(CandidateError::InvalidSignalScore { value });
        }
        Ok(SignalScore(value))
    }

    /// A score known to be within bounds.
    pub fn bounded(value: i32) -> (s: SignalScore)
        requires
            -10_000 <= value <= 10_000,
        ensures
            s@ == value,
    {
        SignalScore(value)
    }

    pub fn value(self) -> (v: i32)
        ensures
            v == self@,
            -10_000 <= v <= 10_000,
    {
        proof {
            use_type_invariant(self);
        }
        self.0
    }
}

#[derive(Clone, Copy, Debug, PartialEq, Eq, Structural)]
pub enum SignalComponent {
    Fundamental,
    Trend,
    PriceVolume,
    Technical,
    ExperienceCost,
}

#[derive(Clone, Copy, Debug, PartialEq, Eq, Structural)]
pub enum SignalUnavailableReason {
    ZeroWeight,
    FundamentalUnavailable,
    MissingThirtyMinuteReturn,
    MissingFiveDayReturn,
    MissingRelativeVolume,
    MissingOrderBookImbalance,
    MissingSma20,
    MissingSma60,
    MissingRsi14,
    MissingObservation,
}

#[derive(Clone, Copy, Debug, PartialEq, Eq, Structural)]
pub struct ExcludedSignal {
    pub component: SignalComponent,
    pub reason: SignalUnavailableReason,
}

/// One analysis family's contribution: a score, or the reasons its atoms are missing.
#[derive(Clone, Debug, PartialEq, Eq)]
pub struct SignalContribution {
    pub score: Option<SignalScore>,
    pub unavailable_atoms: Vec<SignalUnavailableReason>,
}

impl SignalContribution {
    pub fn available(score: SignalScore) -> (c: SignalContribution)
        ensures
            c.score == Some(score),
            c.unavailable_atoms@ == Seq::<SignalUnavailableReason>::empty(),
    {
        let c = SignalContribution { score: Some(score), unavailable_atoms: Vec::new() };
        assert(c.unavailable_atoms@ =~= Seq::<SignalUnavailableReason>::empty());
        c
    }

    pub fn unavailable(reason: SignalUnavailableReason) -> (c: SignalContribution)
        ensures
            c.score is None,
            c.unavailable_atoms@ == seq![reason],
    {
        let mut atoms = Vec::new();
        atoms.push(reason);
        SignalContribution { score: None, unavailable_atoms: atoms }
    }

    pub fn score(&self) -> (s: Option<SignalScore>)
        ensures
            s == self.score,
    {
        self.score
    }

    pub fn unavailable_atoms(&self) -> (a: &Vec<SignalUnavailableReason>)
        ensures
            a@ == self.unavailable_atoms@,
    {
        &self.unavailable_atoms
    }
}

#[derive(Clone, Debug, PartialEq, Eq)]
pub struct CandidateSignals {
    pub fundamental: SignalContribution,
    pub trend: SignalContribution,
    pub price_volume: SignalContribution,
    pub technical: SignalContribution,
    pub experience: SignalContribution,
}

#[derive(Clone, Debug, PartialEq, Eq)]
pub enum CandidateAssessment {
    Scored { score: SignalScore, used_weight_bp: u32, excluded: Vec<ExcludedSignal> },
    InsufficientInformation { excluded: Vec<ExcludedSignal> },
}

#[derive(Clone, Debug, PartialEq, Eq)]
pub enum CandidateError {
    InvalidSignalScore { value: i32 },
    InvalidThreshold { threshold: i64 },
    NonPositiveMoney { field: &'static str, cents: i64 },
    InvertedValuationRange { low_cents: i64, high_cents: i64 },
    InvalidPositionFraction { value: u32 },
    InvalidBoardLotSize { lot_size: u32 },
    ArithmeticOverflow { step: &'static str },
}

/// Rounds `numerator / denominator` half to even, through the unsigned magnitude.
pub fn div_round_half_even(numerator: i128, denominator: i128) -> (r: i128)
    requires
        small_ratio(numerator as int, denominator as int),
    ensures
        r == round_half_even(numerator as int, denominator as int),
{
    let negative = numerator < 0;
    let magnitude: u128 = if negative {
        (-numerator) as u128
    } else {
        numerator as u128
    };
    let d = denominator as u128;
    let quotient = magnitude / d;
    let remainder = magnitude % d;
    let rounded = if remainder * 2 > d || (remainder * 2 == d && quotient % 2 == 1) {
        quotient + 1
    } else {
        quotient
    };
    proof {
        let m = magnitude as int;
        lemma_half_even_from_parts(m, d as int);
        vstd::arithmetic::div_mod::lemma_div_is_ordered_by_denominator(m, 1, d as int);
        let q = m / (d as int);
        let rm = if 2 * (m % (d as int)) < d {
            q
        } else if 2 * (m % (d as int)) > d {
            q + 1
        } else if q % 2 != 0 {
            q + 1
        } else {
            q
        };
        assert(rounded == rm);
        if negative {
            lemma_half_even_neg(m, d as int, rm);
            lemma_round_half_even_is(numerator as int, denominator as int, -rm);
        } else {
            lemma_round_half_even_is(numerator as int, denominator as int, rm);
        }
    }
    let r = rounded as i128;
    if negative {
        -r
    } else {
        r
    }
}

/// `x` clamped into `lo..=hi`.
pub open spec fn clamp(x: int, lo: int, hi: int) -> int {
    if x < lo {
        lo
    } else if x > hi {
        hi
    } else {
        x
    }
}

/// `x / threshold` in basis points, rounded half to even and clamped to ±10000.
pub open spec fn spec_normalized(x: int, threshold: int) -> int {
    clamp(round_half_even(x * 10_000, threshold), -10_000, 10_000)
}

pub fn normalized_score(x: i64, threshold: i64) -> (r: Result<SignalScore, CandidateError>)
    ensures
        match r {
            Ok(s) => threshold > 0 && s@ == spec_normalized(x as int, threshold as int),
            Err(e) => threshold <= 0 && e == CandidateError::InvalidThreshold { threshold },
        },
{
    if threshold <= 0 {
        return Err(CandidateError::InvalidThreshold { threshold });
    }
    let xi = x as i128;
    proof {
        assert(-0x1_0000_0000_0000_0000_0000 <= xi * 10_000 <= 0x1_0000_0000_0000_0000_0000) by (nonlinear_arith)
            requires
                i64::MIN <= xi <= i64::MAX,
        ;
    }
    let rounded = div_round_half_even(xi * 10_000, threshold as i128);
    let clamped = if rounded < -10_000 {
        -10_000
    } else if rounded > 10_000 {
        10_000
    } else {
        rounded
    };
    Ok(SignalScore::bounded(clamped as i32))
}

pub fn require_positive(field: &'static str, money: Money) -> (r: Result<(), CandidateError>)
    ensures
        r == (if money.cents <= 0 {
            Err(CandidateError::NonPositiveMoney { field, cents: money.cents })
        } else {
            Ok(())
        }),
{
    if money.cents() <= 0 {
        return Err(CandidateError::NonPositiveMoney { field, cents: money.cents() });
    }
    Ok(())
}

/// A rounded weighted mean of bounded scores is itself bounded.
pub proof fn lemma_weighted_mean_bounded(n: int, d: int)
    requires
        d > 0,
        -10_000 * d <= n <= 10_000 * d,
    ensures
        -10_000 <= round_half_even(n, d) <= 10_000,
{
    lemma_round_half_even_within(n, d, -10_000, 10_000);
}

/// A score as a plain integer, if present.
pub open spec fn score_view(o: Option<SignalScore>) -> Option<int> {
    match o {
        Some(s) => Some(s@),
        None => None,
    }
}

/// One atom of an analysis family: an optional score, its weight and the
/// reason reported when it is missing.
pub type Atom = (Option<SignalScore>, u32, SignalUnavailableReason);

/// Atoms as plain values.
pub open spec fn atoms_view(atoms: Seq<Atom>) -> Seq<(Option<int>, int, SignalUnavailableReason)> {
    atoms.map_values(|a: Atom| (score_view(a.0), a.1 as int, a.2))
}

/// Weighted score sum, used weight and missing reasons of the first `k` atoms.
pub open spec fn atom_totals(atoms: Seq<(Option<int>, int, SignalUnavailableReason)>, k: int) -> (
    int,
    int,
    Seq<SignalUnavailableReason>,
)
    decreases k,
{
    if k <= 0 {
        (0, 0, Seq::empty())
    } else {
        let prev = atom_totals(atoms, k - 1);
        let a = atoms[k - 1];
        match a.0 {
            Some(score) => (prev.0 + a.1 * score, prev.1 + a.1, prev.2),
            None => (prev.0, prev.1, prev.2.push(a.2)),
        }
    }
}

/// The family score is the rounded weighted mean of its present atoms (none
/// when no atom is present), with the reasons of the missing atoms in order.
pub open spec fn spec_weighted(atoms: Seq<(Option<int>, int, SignalUnavailableReason)>) -> (
    Option<int>,
    Seq<SignalUnavailableReason>,
) {
    let t = atom_totals(atoms, atoms.len() as int);
    (if t.1 == 0 {
        None
    } else {
        Some(round_half_even(t.0, t.1))
    }, t.2)
}

/// An atom as plain values: its score if present, its weight, its reason if missing.
pub type AtomView = (Option<int>, int, SignalUnavailableReason);

/// Whether an atom's score is missing.
pub open spec fn atom_missing() -> spec_fn(AtomView) -> bool {
    |a: AtomView| a.0 is None
}

/// Whether an atom's score is present.
pub open spec fn atom_present() -> spec_fn(AtomView) -> bool {
    |a: AtomView| a.0 is Some
}

/// The reasons of the missing atoms, each once, in atom order.
pub open spec fn missing_reasons(atoms: Seq<AtomView>) -> Seq<SignalUnavailableReason> {
    atoms.filter(atom_missing()).map_values(|a: AtomView| a.2)
}

/// The weighted score sum and the weight of atoms that are all present.
pub open spec fn present_totals(present: Seq<AtomView>) -> (int, int)
    decreases present.len(),
{
    if present.len() == 0 {
        (0, 0)
    } else {
        let p = present_totals(present.drop_last());
        (p.0 + present.last().1 * present.last().0->Some_0, p.1 + present.last().1)
    }
}

proof fn lemma_atom_totals(atoms: Seq<AtomView>, k: int)
    requires
        0 <= k <= atoms.len(),
        forall|j: int| 0 <= j < atoms.len() ==> (#[trigger] atoms[j]).1 > 0,
    ensures
        atom_totals(atoms, k).2 == missing_reasons(atoms.take(k)),
        atom_totals(atoms, k).0 == present_totals(atoms.take(k).filter(atom_present())).0,
        atom_totals(atoms, k).1 == present_totals(atoms.take(k).filter(atom_present())).1,
        (atom_totals(atoms, k).1 == 0) <==> (forall|j: int| 0 <= j < k ==> (#[trigger] atoms[j]).0 is None),
        atom_totals(atoms, k).1 >= 0,
        (forall|j: int| 0 <= j < k ==> (#[trigger] atoms[j]).0 is None) ==> atom_totals(atoms, k).2.len() == k,
    decreases k,
{
    reveal(Seq::filter);
    if k == 0 {
        assert(atoms.take(0) =~= Seq::<AtomView>::empty());
        assert(missing_reasons(atoms.take(0)) =~= Seq::<SignalUnavailableReason>::empty());
    } else {
        lemma_atom_totals(atoms, k - 1);
        let t = atoms.take(k);
        assert(t.drop_last() =~= atoms.take(k - 1));
        assert(t.last() == atoms[k - 1]);
        let a = atoms[k - 1];
        let f = |x: AtomView| x.2;
        if a.0 is None {
            assert(t.filter(atom_missing()) == atoms.take(k - 1).filter(atom_missing()).push(a));
            assert(t.filter(atom_missing()).map_values(f) =~= atoms.take(k - 1).filter(atom_missing()).map_values(
                f,
            ).push(a.2));
            assert(t.filter(atom_present()) == atoms.take(k - 1).filter(atom_present()));
        } else {
            assert(t.filter(atom_missing()) == atoms.take(k - 1).filter(atom_missing()));
            let pr = atoms.take(k - 1).filter(atom_present());
            assert(t.filter(atom_present()) == pr.push(a));
            assert(pr.push(a).drop_last() =~= pr);
            assert(atoms[k - 1].1 > 0);
        }
        if forall|j: int| 0 <= j < k ==> (#[trigger] atoms[j]).0 is None {
            assert(atoms[k - 1].0 is None);
        }
    }
}

/// A family's contribution, for atoms of positive weight: the reasons of the
/// missing atoms, each once and in atom order; no score exactly when every
/// atom is missing, and then every atom's reason is listed; otherwise the
/// score is the weighted mean of the present atoms, rounded half to even.
pub proof fn law_family_reports_its_missing_atoms(atoms: Seq<AtomView>)
    requires
        forall|j: int| 0 <= j < atoms.len() ==> (#[trigger] atoms[j]).1 > 0,
    ensures
        spec_weighted(atoms).1 == missing_reasons(atoms),
        spec_weighted(atoms).0 is None <==> (forall|j: int| 0 <= j < atoms.len() ==> (#[trigger] atoms[j]).0 is None),
        spec_weighted(atoms).0 is None ==> spec_weighted(atoms).1.len() == atoms.len(),
        atoms.len() > 0 && spec_weighted(atoms).0 is None ==> spec_weighted(atoms).1.len() > 0,
        spec_weighted(atoms).0 is Some ==> spec_weighted(atoms).0 == Some(
            round_half_even(
                present_totals(atoms.filter(atom_present())).0,
                present_totals(atoms.filter(atom_present())).1,
            ),
        ),
{
    lemma_atom_totals(atoms, atoms.len() as int);
    assert(atoms.take(atoms.len() as int) =~= atoms);
}

/// Every signal family that has no score says why: the trend, price-volume
/// and technical families each list at least one missing atom whenever
/// their score is missing.
pub proof fn law_missing_scores_come_with_missing_atoms(
    thirty: Option<i32>,
    five_day: Option<i32>,
    volume: Option<i32>,
    imbalance: Option<int>,
    sma20: Result<SimpleMovingAverage, TechnicalError>,
    sma60: Result<SimpleMovingAverage, TechnicalError>,
    rsi14: Result<RelativeStrengthIndex, TechnicalError>,
)
    ensures
        spec_trend(thirty, five_day).0 is None ==> spec_trend(thirty, five_day).1.len() > 0,
        price_volume_of(thirty, volume, imbalance).0 is None ==> price_volume_of(thirty, volume, imbalance).1.len()
            > 0,
        spec_technical(sma20, sma60, rsi14) is Ok && spec_technical(sma20, sma60, rsi14)->Ok_0.0 is None
            ==> spec_technical(sma20, sma60, rsi14)->Ok_0.1.len() > 0,
{
    let trend: Seq<AtomView> = seq![
        (match thirty {
            Some(v) => Some(spec_normalized(v as int, 300)),
            None => None,
        }, 4int, SignalUnavailableReason::MissingThirtyMinuteReturn),
        (match five_day {
            Some(v) => Some(spec_normalized(v as int, 1000)),
            None => None,
        }, 6int, SignalUnavailableReason::MissingFiveDayReturn),
    ];
    law_family_reports_its_missing_atoms(trend);
    let pv: Seq<AtomView> = seq![
        (match (thirty, volume) {
            (Some(ret), Some(vol)) => Some(spec_normalized(vol - 10_000, 10_000) * sign(ret as int)),
            _ => None,
        }, 5int, if thirty is None {
            SignalUnavailableReason::MissingThirtyMinuteReturn
        } else {
            SignalUnavailableReason::MissingRelativeVolume
        }),
        (imbalance, 5int, SignalUnavailableReason::MissingOrderBookImbalance),
    ];
    law_family_reports_its_missing_atoms(pv);
    let tech: Seq<AtomView> = seq![
        (match (sma20, sma60) {
            (Ok(short), Ok(long)) => Some(spec_normalized(spec_sma_ratio(short, long), 500)),
            _ => None,
        }, 7int, if sma20 is Err {
            SignalUnavailableReason::MissingSma20
        } else {
            SignalUnavailableReason::MissingSma60
        }),
        (match rsi14 {
            Ok(rsi) => Some(spec_normalized(50 - rsi.value, 20)),
            Err(_) => None,
        }, 3int, SignalUnavailableReason::MissingRsi14),
    ];
    law_family_reports_its_missing_atoms(tech);
}

/// The contribution carries exactly the given score and missing reasons.
pub open spec fn contribution_is(c: SignalContribution, v: (Option<int>, Seq<SignalUnavailableReason>)) -> bool {
    score_view(c.score) == v.0 && c.unavailable_atoms@ == v.1
}

pub fn weighted_atoms(atoms: &Vec<Atom>) -> (r: Result<SignalContribution, CandidateError>)
    requires
        atoms@.len() <= 8,
        forall|k: int| 0 <= k < atoms@.len() ==> (#[trigger] atoms@[k]).1 <= 10_000,
    ensures
        r matches Ok(c) && contribution_is(c, spec_weighted(atoms_view(atoms@))),
{
    let ghost va = atoms_view(atoms@);
    let mut numerator: i128 = 0;
    let mut weight: u32 = 0;
    let mut unavailable: Vec<SignalUnavailableReason> = Vec::new();
    let mut k: usize = 0;
    while k < atoms.len()
        invariant
            atoms@.len() <= 8,
            va == atoms_view(atoms@),
            forall|q: int| 0 <= q < atoms@.len() ==> (#[trigger] atoms@[q]).1 <= 10_000,
            k <= atoms@.len(),
            (numerator as int, weight as int, unavailable@) == atom_totals(va, k as int),
            weight <= 10_000 * k,
            -10_000 * weight <= numerator <= 10_000 * weight,
        decreases atoms@.len() - k,
    {
        let (score, atom_weight, reason) = atoms[k];
        proof {
            assert(va[k as int] == (score_view(score), atom_weight as int, reason));
        }
        match score {
            Some(s) => {
                let v = s.value();
                proof {
                    assert(-10_000 * (atom_weight as int) <= atom_weight * v <= 10_000 * (atom_weight as int))
                        by (nonlinear_arith)
                        requires
                            -10_000 <= v <= 10_000,
                            0 <= atom_weight,
                    ;
                }
                numerator = numerator + atom_weight as i128 * v as i128;
                weight = weight + atom_weight;
            },
            None => {
                unavailable.push(reason);
            },
        }
        k = k + 1;
    }
    if weight == 0 {
        return Ok(SignalContribution { score: None, unavailable_atoms: unavailable });
    }
    proof {
        lemma_weighted_mean_bounded(numerator as int, weight as int);
    }
    let mean = div_round_half_even(numerator, weight as i128);
    Ok(SignalContribution { score: Some(SignalScore::bounded(mean as i32)), unavailable_atoms: unavailable })
}

/// An atom from an optional observation normalized by its threshold.
pub fn atom(value: Option<i32>, threshold: i64, weight: u32, reason: SignalUnavailableReason) -> (r: Result<
    Atom,
    CandidateError,
>)
    requires
        threshold > 0,
    ensures
        r matches Ok(a) && a.1 == weight && a.2 == reason && score_view(a.0) == (match value {
            Some(v) => Some(spec_normalized(v as int, threshold as int)),
            None => None,
        }),
{
    let score = match value {
        Some(v) => Some(normalized_score(v as i64, threshold)?),
        None => None,
    };
    Ok((score, weight, reason))
}

/// Trend: 30-minute return against 300 bp (weight 4) and 5-day return against 1000 bp (weight 6).
pub open spec fn spec_trend(thirty: Option<i32>, five_day: Option<i32>) -> (Option<int>, Seq<SignalUnavailableReason>) {
    spec_weighted(
        seq![
            (match thirty {
                Some(v) => Some(spec_normalized(v as int, 300)),
                None => None,
            }, 4int, SignalUnavailableReason::MissingThirtyMinuteReturn),
            (match five_day {
                Some(v) => Some(spec_normalized(v as int, 1000)),
                None => None,
            }, 6int, SignalUnavailableReason::MissingFiveDayReturn),
        ],
    )
}

pub fn trend_signal(thirty_minute_return_bp: Option<i32>, five_day_return_bp: Option<i32>) -> (r: Result<
    SignalContribution,
    CandidateError,
>)
    ensures
        r matches Ok(c) && contribution_is(c, spec_trend(thirty_minute_return_bp, five_day_return_bp)),
{
    let a = atom(thirty_minute_return_bp, 300, 4, SignalUnavailableReason::MissingThirtyMinuteReturn)?;
    let b = atom(five_day_return_bp, 1_000, 6, SignalUnavailableReason::MissingFiveDayReturn)?;
    let mut atoms: Vec<Atom> = Vec::new();
    atoms.push(a);
    atoms.push(b);
    proof {
        assert(atoms_view(atoms@) =~= seq![
            (match thirty_minute_return_bp {
                Some(v) => Some(spec_normalized(v as int, 300)),
                None => None,
            }, 4int, SignalUnavailableReason::MissingThirtyMinuteReturn),
            (match five_day_return_bp {
                Some(v) => Some(spec_normalized(v as int, 1000)),
                None => None,
            }, 6int, SignalUnavailableReason::MissingFiveDayReturn),
        ]);
    }
    weighted_atoms(&atoms)
}

pub open spec fn sign(x: int) -> int {
    if x > 0 {
        1
    } else if x < 0 {
        -1
    } else {
        0
    }
}

/// Price-volume: relative volume above normal, signed by the 30-minute
/// return (weight 5), and the order-book imbalance (weight 5).
pub open spec fn spec_price_volume(
    thirty: Option<i32>,
    volume: Option<i32>,
    imbalance: Option<SignalScore>,
) -> (Option<int>, Seq<SignalUnavailableReason>) {
    price_volume_of(thirty, volume, score_view(imbalance))
}

/// The price-volume family with the imbalance score given as an integer.
pub open spec fn price_volume_of(
    thirty: Option<i32>,
    volume: Option<i32>,
    imbalance: Option<int>,
) -> (Option<int>, Seq<SignalUnavailableReason>) {
    spec_weighted(
        seq![
            (match (thirty, volume) {
                (Some(ret), Some(vol)) => Some(spec_normalized(vol - 10_000, 10_000) * sign(ret as int)),
                _ => None,
            }, 5int, if thirty is None {
                SignalUnavailableReason::MissingThirtyMinuteReturn
            } else {
                SignalUnavailableReason::MissingRelativeVolume
            }),
            (imbalance, 5int, SignalUnavailableReason::MissingOrderBookImbalance),
        ],
    )
}

pub fn price_volume_signal(
    thirty_minute_return_bp: Option<i32>,
    relative_volume_bp: Option<i32>,
    imbalance: Option<SignalScore>,
) -> (r: Result<SignalContribution, CandidateError>)
    ensures
        r matches Ok(c) && contribution_is(c, spec_price_volume(thirty_minute_return_bp, relative_volume_bp, imbalance)),
{
    let volume_score = match (thirty_minute_return_bp, relative_volume_bp) {
        (Some(ret), Some(volume)) => {
            let score = normalized_score(volume as i64 - 10_000, 10_000)?;
            let v = score.value();
            let signed = if ret > 0 {
                v
            } else if ret < 0 {
                -v
            } else {
                0
            };
            Some(SignalScore::bounded(signed))
        },
        _ => None,
    };
    let volume_reason = if thirty_minute_return_bp.is_none() {
        SignalUnavailableReason::MissingThirtyMinuteReturn
    } else {
        SignalUnavailableReason::MissingRelativeVolume
    };
    let mut atoms: Vec<Atom> = Vec::new();
    atoms.push((volume_score, 5, volume_reason));
    atoms.push((imbalance, 5, SignalUnavailableReason::MissingOrderBookImbalance));
    proof {
        assert(atoms_view(atoms@) =~= seq![
            (match (thirty_minute_return_bp, relative_volume_bp) {
                (Some(ret), Some(vol)) => Some(spec_normalized(vol - 10_000, 10_000) * sign(ret as int)),
                _ => None,
            }, 5int, volume_reason),
            (score_view(imbalance), 5int, SignalUnavailableReason::MissingOrderBookImbalance),
        ]);
    }
    weighted_atoms(&atoms)
}

/// A simple moving average of closing prices.
#[derive(Clone, Copy, Debug, PartialEq, Eq, Structural)]
pub struct SimpleMovingAverage {
    pub average: Money,
}

/// A relative strength index, 0..=100.
#[derive(Clone, Copy, Debug, PartialEq, Eq, Structural)]
pub struct RelativeStrengthIndex {
    pub value: u8,
}

/// Why a technical indicator could not be computed.
#[derive(Clone, Copy, Debug, PartialEq, Eq, Structural)]
pub enum TechnicalError {
    InsufficientHistory,
    NonPositivePrice,
}

/// The SMA atom: the 20-day average relative to the 60-day one, in bp.
pub open spec fn spec_sma_ratio(short: SimpleMovingAverage, long: SimpleMovingAverage) -> int {
    round_half_even((short.average.cents - long.average.cents) * 10_000, long.average.cents as int)
}

/// Technical: SMA20 over SMA60 against 500 bp (weight 7) and RSI14 distance
/// from 50 against 20 (weight 3).
pub open spec fn spec_technical(
    sma20: Result<SimpleMovingAverage, TechnicalError>,
    sma60: Result<SimpleMovingAverage, TechnicalError>,
    rsi14: Result<RelativeStrengthIndex, TechnicalError>,
) -> Result<(Option<int>, Seq<SignalUnavailableReason>), CandidateError> {
    match (sma20, sma60) {
        (Ok(_), Ok(long)) if long.average.cents <= 0 => Err(
            CandidateError::NonPositiveMoney { field: "SMA60", cents: long.average.cents },
        ),
        (Ok(short), Ok(long)) if !(i64::MIN <= spec_sma_ratio(short, long) <= i64::MAX) => Err(
            CandidateError::ArithmeticOverflow { step: "SMA ratio bp" },
        ),
        _ => Ok(
            spec_weighted(
                seq![
                    (match (sma20, sma60) {
                        (Ok(short), Ok(long)) => Some(spec_normalized(spec_sma_ratio(short, long), 500)),
                        _ => None,
                    }, 7int, if sma20 is Err {
                        SignalUnavailableReason::MissingSma20
                    } else {
                        SignalUnavailableReason::MissingSma60
                    }),
                    (match rsi14 {
                        Ok(rsi) => Some(spec_normalized(50 - rsi.value, 20)),
                        Err(_) => None,
                    }, 3int, SignalUnavailableReason::MissingRsi14),
                ],
            ),
        ),
    }
}

pub fn technical_signal(
    sma20: &Result<SimpleMovingAverage, TechnicalError>,
    sma60: &Result<SimpleMovingAverage, TechnicalError>,
    rsi14: &Result<RelativeStrengthIndex, TechnicalError>,
) -> (r: Result<SignalContribution, CandidateError>)
    ensures
        match spec_technical(*sma20, *sma60, *rsi14) {
            Ok(v) => r matches Ok(c) && contribution_is(c, v),
            Err(e) => r == Err::<SignalContribution, CandidateError>(e),
        },
{
    let sma_score = match (sma20, sma60) {
        (Ok(short), Ok(long)) => {
            require_positive("SMA60", long.average)?;
            let difference = short.average.cents() as i128 - long.average.cents() as i128;
            proof {
                assert(-0x1_0000_0000_0000_0000_0000 <= difference * 10_000 <= 0x1_0000_0000_0000_0000_0000) by (nonlinear_arith)
                    requires
                        -0x1_0000_0000_0000_0000 <= difference <= 0x1_0000_0000_0000_0000,
                ;
            }
            let ratio_bp = div_round_half_even(difference * 10_000, long.average.cents() as i128);
            if ratio_bp < i64::MIN as i128 || ratio_bp > i64::MAX as i128 {
                return Err(CandidateError::ArithmeticOverflow { step: "SMA ratio bp" });
            }
            Some(normalized_score(ratio_bp as i64, 500)?)
        },
        _ => None,
    };
    let sma_reason = if sma20.is_err() {
        SignalUnavailableReason::MissingSma20
    } else {
        SignalUnavailableReason::MissingSma60
    };
    let rsi_score = match rsi14 {
        Ok(rsi) => Some(normalized_score(50 - rsi.value as i64, 20)?),
        Err(_) => None,
    };
    let mut atoms: Vec<Atom> = Vec::new();
    atoms.push((sma_score, 7, sma_reason));
    atoms.push((rsi_score, 3, SignalUnavailableReason::MissingRsi14));
    proof {
        assert(atoms_view(atoms@) =~= seq![
            (match (*sma20, *sma60) {
                (Ok(short), Ok(long)) => Some(spec_normalized(spec_sma_ratio(short, long), 500)),
                _ => None,
            }, 7int, sma_reason),
            (match *rsi14 {
                Ok(rsi) => Some(spec_normalized(50 - rsi.value, 20)),
                Err(_) => None,
            }, 3int, SignalUnavailableReason::MissingRsi14),
        ]);
    }
    weighted_atoms(&atoms)
}

/// Fundamental range: zero inside the valuation range; outside it, the
/// midpoint's distance from the price in bp, normalized against 2000 bp.
pub open spec fn spec_fundamental_range(current: Money, pessimistic: Money, optimistic: Money) -> Result<
    int,
    CandidateError,
> {
    if current.cents <= 0 {
        Err(CandidateError::NonPositiveMoney { field: "current price", cents: current.cents })
    } else if pessimistic.cents <= 0 {
        Err(CandidateError::NonPositiveMoney { field: "pessimistic valuation", cents: pessimistic.cents })
    } else if optimistic.cents <= 0 {
        Err(CandidateError::NonPositiveMoney { field: "optimistic valuation", cents: optimistic.cents })
    } else if pessimistic.cents > optimistic.cents {
        Err(CandidateError::InvertedValuationRange { low_cents: pessimistic.cents, high_cents: optimistic.cents })
    } else if pessimistic.cents <= current.cents <= optimistic.cents {
        Ok(0)
    } else {
        let midpoint = round_half_even(pessimistic.cents + optimistic.cents, 2);
        let relative = round_half_even((midpoint - current.cents) * 10_000, current.cents as int);
        if !(i64::MIN <= relative <= i64::MAX) {
            Err(CandidateError::ArithmeticOverflow { step: "fundamental relative bp" })
        } else {
            Ok(spec_normalized(relative, 2_000))
        }
    }
}

pub fn fundamental_range_signal(current: Money, pessimistic: Money, optimistic: Money) -> (r: Result<
    SignalContribution,
    CandidateError,
>)
    ensures
        match spec_fundamental_range(current, pessimistic, optimistic) {
            Ok(v) => r matches Ok(c) && contribution_is(c, (Some(v), Seq::empty())),
            Err(e) => r == Err::<SignalContribution, CandidateError>(e),
        },
{
    require_positive("current price", current)?;
    require_positive("pessimistic valuation", pessimistic)?;
    require_positive("optimistic valuation", optimistic)?;
    if pessimistic.cents() > optimistic.cents() {
        return Err(
            CandidateError::InvertedValuationRange {
                low_cents: pessimistic.cents(),
                high_cents: optimistic.cents(),
            },
        );
    }
    if pessimistic.cents() <= current.cents() && current.cents() <= optimistic.cents() {
        return Ok(SignalContribution::available(SignalScore::bounded(0)));
    }
    let midpoint = div_round_half_even(pessimistic.cents() as i128 + optimistic.cents() as i128, 2);
    proof {
        let m = midpoint as int;
        let sum = pessimistic.cents + optimistic.cents;
        assert(half_even_ok(sum, 2, m)) by {
            lemma_weighted_mean_bounded(0, 1);
            assert(exists|x: int| half_even_ok(sum, 2, x)) by {
                lemma_half_even_from_parts(sum, 2);
            }
        }
        assert(0 <= m <= i64::MAX) by {
            assert(2 * abs(sum - m * 2) <= 2);
        }
        assert(-0x1_0000_0000_0000_0000_0000 <= (m - current.cents) * 10_000 <= 0x1_0000_0000_0000_0000_0000)
            by (nonlinear_arith)
            requires
                0 <= m <= i64::MAX,
                0 < current.cents <= i64::MAX,
        ;
    }
    let relative_bp = div_round_half_even((midpoint - current.cents() as i128) * 10_000, current.cents() as i128);
    if relative_bp < i64::MIN as i128 || relative_bp > i64::MAX as i128 {
        return Err(CandidateError::ArithmeticOverflow { step: "fundamental relative bp" });
    }
    let score = normalized_score(relative_bp as i64, 2_000)?;
    Ok(SignalContribution::available(score))
}

/// Per-share valuation range.
#[derive(Clone, Copy, Debug, PartialEq, Eq, Structural)]
pub struct PerShareValuation {
    pub pessimistic: Money,
    pub optimistic: Money,
}

/// Outcome of a valuation.
#[derive(Clone, Copy, Debug, PartialEq, Eq, Structural)]
pub enum ValuationOutcome {
    Available { per_share: PerShareValuation },
    Unavailable,
}

pub fn fundamental_signal(current: Money, valuation: &ValuationOutcome) -> (r: Result<SignalContribution, CandidateError>)
    ensures
        match *valuation {
            ValuationOutcome::Available { per_share } => match spec_fundamental_range(
                current,
                per_share.pessimistic,
                per_share.optimistic,
            ) {
                Ok(v) => r matches Ok(c) && contribution_is(c, (Some(v), Seq::empty())),
                Err(e) => r == Err::<SignalContribution, CandidateError>(e),
            },
            ValuationOutcome::Unavailable => r matches Ok(c) && contribution_is(
                c,
                (None, seq![SignalUnavailableReason::FundamentalUnavailable]),
            ),
        },
{
    match valuation {
        ValuationOutcome::Available { per_share } => fundamental_range_signal(
            current,
            per_share.pessimistic,
            per_share.optimistic,
        ),
        ValuationOutcome::Unavailable => Ok(
            SignalContribution::unavailable(SignalUnavailableReason::FundamentalUnavailable),
        ),
    }
}

/// The position action a retail investor's experience suggests.
#[derive(Clone, Copy, Debug, PartialEq, Eq, Structural)]
pub enum PositionAction {
    Hold,
    Watch,
    TryBuy,
    Add,
    Reduce,
    Exit,
}

pub open spec fn spec_experience_score(action: PositionAction) -> int {
    match action {
        PositionAction::Hold | PositionAction::Watch => 0,
        PositionAction::TryBuy => 2_500,
        PositionAction::Add => 5_000,
        PositionAction::Reduce => -5_000,
        PositionAction::Exit => -10_000,
    }
}

pub fn experience_cost_signal(action: PositionAction) -> (c: SignalContribution)
    ensures
        contribution_is(c, (Some(spec_experience_score(action)), Seq::empty())),
{
    let score: i32 = match action {
        PositionAction::Hold | PositionAction::Watch => 0,
        PositionAction::TryBuy => 2_500,
        PositionAction::Add => 5_000,
        PositionAction::Reduce => -5_000,
        PositionAction::Exit => -10_000,
    };
    SignalContribution::available(SignalScore::bounded(score))
}

/// The weights of the five analysis families, in basis points.
#[derive(Clone, Copy, Debug, PartialEq, Eq, Structural)]
pub struct AnalysisWeights {
    pub fundamental_bp: u32,
    pub trend_bp: u32,
    pub price_volume_bp: u32,
    pub technical_bp: u32,
    pub experience_cost_bp: u32,
}

/// A family as plain values: component, weight, score and missing reasons.
pub type FamilyView = (SignalComponent, int, Option<int>, Seq<SignalUnavailableReason>);

pub open spec fn families(weights: AnalysisWeights, signals: CandidateSignals) -> Seq<FamilyView> {
    seq![
        (SignalComponent::Fundamental, weights.fundamental_bp as int, score_view(signals.fundamental.score), signals.fundamental.unavailable_atoms@),
        (SignalComponent::Trend, weights.trend_bp as int, score_view(signals.trend.score), signals.trend.unavailable_atoms@),
        (SignalComponent::PriceVolume, weights.price_volume_bp as int, score_view(signals.price_volume.score), signals.price_volume.unavailable_atoms@),
        (SignalComponent::Technical, weights.technical_bp as int, score_view(signals.technical.score), signals.technical.unavailable_atoms@),
        (SignalComponent::ExperienceCost, weights.experience_cost_bp as int, score_view(signals.experience.score), signals.experience.unavailable_atoms@),
    ]
}

/// Weighted sum, used weight and exclusions of the first `k` families: a
/// zero weight excludes a family, and so does a missing score (with its
/// first missing atom, or a missing observation).
pub open spec fn family_totals(fams: Seq<FamilyView>, k: int) -> (int, int, Seq<ExcludedSignal>)
    decreases k,
{
    if k <= 0 {
        (0, 0, Seq::empty())
    } else {
        let prev = family_totals(fams, k - 1);
        let f = fams[k - 1];
        if f.1 == 0 {
            (prev.0, prev.1, prev.2.push(ExcludedSignal { component: f.0, reason: SignalUnavailableReason::ZeroWeight }))
        } else {
            match f.2 {
                Some(score) => (prev.0 + f.1 * score, prev.1 + f.1, prev.2),
                None => (
                    prev.0,
                    prev.1,
                    prev.2.push(
                        ExcludedSignal {
                            component: f.0,
                            reason: if f.3.len() > 0 {
                                f.3[0]
                            } else {
                                SignalUnavailableReason::MissingObservation
                            },
                        },
                    ),
                ),
            }
        }
    }
}

/// The blended assessment: the rounded weighted mean of the available
/// families, or insufficient information when no weight is used.
pub open spec fn spec_blend_ok(a: CandidateAssessment, weights: AnalysisWeights, signals: CandidateSignals) -> bool {
    let t = family_totals(families(weights, signals), 5);
    match a {
        CandidateAssessment::Scored { score, used_weight_bp, excluded } => t.1 != 0 && score@ == round_half_even(
            t.0,
            t.1,
        ) && used_weight_bp == t.1 && excluded@ == t.2,
        CandidateAssessment::InsufficientInformation { excluded } => t.1 == 0 && excluded@ == t.2,
    }
}

fn family_step(
    component: SignalComponent,
    weight: u32,
    contribution: &SignalContribution,
    numerator: &mut i128,
    used: &mut u32,
    excluded: &mut Vec<ExcludedSignal>,
)
    requires
        weight <= 10_000,
        *old(used) <= 40_000,
        -10_000 * *old(used) <= *old(numerator) <= 10_000 * *old(used),
    ensures
        ({
            let prev = (*old(numerator) as int, *old(used) as int, old(excluded)@);
            let f = (component, weight as int, score_view(contribution.score), contribution.unavailable_atoms@);
            let expected = if f.1 == 0 {
                (prev.0, prev.1, prev.2.push(ExcludedSignal { component: f.0, reason: SignalUnavailableReason::ZeroWeight }))
            } else {
                match f.2 {
                    Some(score) => (prev.0 + f.1 * score, prev.1 + f.1, prev.2),
                    None => (
                        prev.0,
                        prev.1,
                        prev.2.push(
                            ExcludedSignal {
                                component: f.0,
                                reason: if f.3.len() > 0 {
                                    f.3[0]
                                } else {
                                    SignalUnavailableReason::MissingObservation
                                },
                            },
                        ),
                    ),
                }
            };
            (*final(numerator) as int, *final(used) as int, final(excluded)@) == expected
        }),
        *final(used) <= *old(used) + weight,
        -10_000 * *final(used) <= *final(numerator) <= 10_000 * *final(used),
{
    if weight == 0 {
        excluded.push(ExcludedSignal { component, reason: SignalUnavailableReason::ZeroWeight });
        return;
    }
    match contribution.score {
        Some(score) => {
            let v = score.value();
            proof {
                assert(-10_000 * (weight as int) <= weight * v <= 10_000 * (weight as int)) by (nonlinear_arith)
                    requires
                        -10_000 <= v <= 10_000,
                        0 <= weight,
                ;
            }
            *numerator = *numerator + weight as i128 * v as i128;
            *used = *used + weight;
        },
        None => {
            let reason = if contribution.unavailable_atoms.len() > 0 {
                contribution.unavailable_atoms[0]
            } else {
                SignalUnavailableReason::MissingObservation
            };
            excluded.push(ExcludedSignal { component, reason });
        },
    }
}

pub fn blend_candidate(weights: &AnalysisWeights, signals: &CandidateSignals) -> (a: CandidateAssessment)
    requires
        weights.fundamental_bp <= 10_000,
        weights.trend_bp <= 10_000,
        weights.price_volume_bp <= 10_000,
        weights.technical_bp <= 10_000,
        weights.experience_cost_bp <= 10_000,
    ensures
        spec_blend_ok(a, *weights, *signals),
{
    let ghost fams = families(*weights, *signals);
    let mut numerator: i128 = 0;
    let mut used: u32 = 0;
    let mut excluded: Vec<ExcludedSignal> = Vec::new();
    assert((numerator as int, used as int, excluded@) == family_totals(fams, 0));
    family_step(SignalComponent::Fundamental, weights.fundamental_bp, &signals.fundamental, &mut numerator, &mut used, &mut excluded);
    assert((numerator as int, used as int, excluded@) == family_totals(fams, 1));
    family_step(SignalComponent::Trend, weights.trend_bp, &signals.trend, &mut numerator, &mut used, &mut excluded);
    assert((numerator as int, used as int, excluded@) == family_totals(fams, 2));
    family_step(SignalComponent::PriceVolume, weights.price_volume_bp, &signals.price_volume, &mut numerator, &mut used, &mut excluded);
    assert((numerator as int, used as int, excluded@) == family_totals(fams, 3));
    family_step(SignalComponent::Technical, weights.technical_bp, &signals.technical, &mut numerator, &mut used, &mut excluded);
    assert((numerator as int, used as int, excluded@) == family_totals(fams, 4));
    family_step(SignalComponent::ExperienceCost, weights.experience_cost_bp, &signals.experience, &mut numerator, &mut used, &mut excluded);
    assert((numerator as int, used as int, excluded@) == family_totals(fams, 5));
    if used == 0 {
        CandidateAssessment::InsufficientInformation { excluded }
    } else {
        proof {
            lemma_weighted_mean_bounded(numerator as int, used as int);
        }
        let value = div_round_half_even(numerator, used as i128);
        CandidateAssessment::Scored { score: SignalScore::bounded(value as i32), used_weight_bp: used, excluded }
    }
}

} // verus!
