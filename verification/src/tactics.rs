//! Finite interviewer tactics: abstract pressure moves carrying no private
//! payload by construction.
use vstd::prelude::*;
use crate::text::{append_decimal, decimal_chars};

verus! {

/// Abstract pressure moves; no dates, amounts, names or scores live here.
#[derive(Debug, Clone, Copy, PartialEq, Eq, PartialOrd, Ord, Hash, Structural)]
pub enum InterviewerTactic {
    /// Challenge sweeping claims; demand bounded scope and counter-examples.
    ProbeOvergeneralization { intensity: u8 },
    /// Fermi estimates, order-of-magnitude checks, unit discipline.
    StressTestQuantitative { intensity: u8 },
    /// Force explicit trade-offs; reject one-sided optimization narratives.
    ForceNuancedTradeoff { intensity: u8 },
    /// Algorithms / systems: boundaries, failure modes, edge cases.
    TechnicalEdgeCaseProbe { intensity: u8 },
}

pub open spec fn clamp15(i: u8) -> u8 {
    if i < 1 {
        1
    } else if i > 5 {
        5
    } else {
        i
    }
}

pub open spec fn intensity_spec(t: InterviewerTactic) -> u8 {
    match t {
        InterviewerTactic::ProbeOvergeneralization { intensity } => intensity,
        InterviewerTactic::StressTestQuantitative { intensity } => intensity,
        InterviewerTactic::ForceNuancedTradeoff { intensity } => intensity,
        InterviewerTactic::TechnicalEdgeCaseProbe { intensity } => intensity,
    }
}

/// The ordinal the tactics sort by (not the declaration order).
pub open spec fn disc_spec(t: InterviewerTactic) -> u8 {
    match t {
        InterviewerTactic::ForceNuancedTradeoff { .. } => 0,
        InterviewerTactic::ProbeOvergeneralization { .. } => 1,
        InterviewerTactic::StressTestQuantitative { .. } => 2,
        InterviewerTactic::TechnicalEdgeCaseProbe { .. } => 3,
    }
}

/// The tactic of ordinal `d` with intensity `i`.
pub open spec fn tactic_of(d: u8, i: u8) -> InterviewerTactic {
    if d == 0 {
        InterviewerTactic::ForceNuancedTradeoff { intensity: i }
    } else if d == 1 {
        InterviewerTactic::ProbeOvergeneralization { intensity: i }
    } else if d == 2 {
        InterviewerTactic::StressTestQuantitative { intensity: i }
    } else {
        InterviewerTactic::TechnicalEdgeCaseProbe { intensity: i }
    }
}

pub open spec fn clamped_spec(t: InterviewerTactic) -> InterviewerTactic {
    tactic_of(disc_spec(t), clamp15(intensity_spec(t)))
}

/// The system-instruction text of a (clamped) tactic.
pub open spec fn instruction_text(t: InterviewerTactic) -> Seq<char> {
    let i = decimal_chars(intensity_spec(t) as nat);
    match t {
        InterviewerTactic::ProbeOvergeneralization { .. } => "【戦術: 過度一般化の検証 / intensity="@ + i
            + "】候補の断定・「いつも」「絶対」を拾い、適用範囲・反例・測定可能な境界を要求せよ。個人の私的記録や財務・心理スコアには言及するな。"@,
        InterviewerTactic::StressTestQuantitative { .. } => "【戦術: 定量ストレステスト / intensity="@ + i
            + "】フェルミ推定・オーダーチェック・単位整合・感度（何が1桁動くと結論が崩れるか）を追及せよ。具体的な個人支出額・口座・取引明細は出さず、抽象的な定量思考のみを評価せよ。"@,
        InterviewerTactic::ForceNuancedTradeoff { .. } => "【戦術: トレードオフ強制 / intensity="@ + i
            + "】単一最適の語りを拒否し、犠牲になる軸・制約・後悔関数を明示させよ。候補の私生活・購買・感情ログを引用・推測するな。"@,
        InterviewerTactic::TechnicalEdgeCaseProbe { .. } => "【戦術: 技術エッジケース追及 / intensity="@ + i
            + "】アルゴリズム／システム設計の境界条件・失敗モード・負荷・整合性を具体例で詰めよ。Vault由来の個人識別子・固有名詞・金額は一切出してはならない。"@,
    }
}

impl InterviewerTactic {
    /// Clamp the intensity into `[1, 5]`, keeping the kind.
    pub fn clamped(self) -> (t: Self)
        ensures
            t == clamped_spec(self),
    {
        match self {
            InterviewerTactic::ProbeOvergeneralization { intensity } => {
                InterviewerTactic::ProbeOvergeneralization { intensity: clamp(intensity) }
            },
            InterviewerTactic::StressTestQuantitative { intensity } => {
                InterviewerTactic::StressTestQuantitative { intensity: clamp(intensity) }
            },
            InterviewerTactic::ForceNuancedTradeoff { intensity } => {
                InterviewerTactic::ForceNuancedTradeoff { intensity: clamp(intensity) }
            },
            InterviewerTactic::TechnicalEdgeCaseProbe { intensity } => {
                InterviewerTactic::TechnicalEdgeCaseProbe { intensity: clamp(intensity) }
            },
        }
    }

    pub fn intensity(self) -> (i: u8)
        ensures
            i == intensity_spec(self),
    {
        match self {
            InterviewerTactic::ProbeOvergeneralization { intensity } => intensity,
            InterviewerTactic::StressTestQuantitative { intensity } => intensity,
            InterviewerTactic::ForceNuancedTradeoff { intensity } => intensity,
            InterviewerTactic::TechnicalEdgeCaseProbe { intensity } => intensity,
        }
    }

    /// Stable sort key: the kind's ordinal, then the intensity.
    pub fn sort_key(self) -> (k: (u8, u8))
        ensures
            k == (disc_spec(self), intensity_spec(self)),
    {
        let disc: u8 = match self {
            InterviewerTactic::ForceNuancedTradeoff { .. } => 0,
            InterviewerTactic::ProbeOvergeneralization { .. } => 1,
            InterviewerTactic::StressTestQuantitative { .. } => 2,
            InterviewerTactic::TechnicalEdgeCaseProbe { .. } => 3,
        };
        (disc, self.intensity())
    }

    /// The system-instruction fragment of the clamped tactic. It holds no
    /// private payload.
    pub fn to_instruction(&self) -> (s: String)
        ensures
            s@ == instruction_text(clamped_spec(*self)),
    {
        let t = self.clamped();
        let intensity = t.intensity();
        let (head, tail): (&str, &str) = match t {
            InterviewerTactic::ProbeOvergeneralization { .. } => (
                "【戦術: 過度一般化の検証 / intensity=",
                "】候補の断定・「いつも」「絶対」を拾い、適用範囲・反例・測定可能な境界を要求せよ。個人の私的記録や財務・心理スコアには言及するな。",
            ),
            InterviewerTactic::StressTestQuantitative { .. } => (
                "【戦術: 定量ストレステスト / intensity=",
                "】フェルミ推定・オーダーチェック・単位整合・感度（何が1桁動くと結論が崩れるか）を追及せよ。具体的な個人支出額・口座・取引明細は出さず、抽象的な定量思考のみを評価せよ。",
            ),
            InterviewerTactic::ForceNuancedTradeoff { .. } => (
                "【戦術: トレードオフ強制 / intensity=",
                "】単一最適の語りを拒否し、犠牲になる軸・制約・後悔関数を明示させよ。候補の私生活・購買・感情ログを引用・推測するな。",
            ),
            InterviewerTactic::TechnicalEdgeCaseProbe { .. } => (
                "【戦術: 技術エッジケース追及 / intensity=",
                "】アルゴリズム／システム設計の境界条件・失敗モード・負荷・整合性を具体例で詰めよ。Vault由来の個人識別子・固有名詞・金額は一切出してはならない。",
            ),
        };
        let mut s = String::from_str(head);
        append_decimal(&mut s, intensity as u64);
        s.append(tail);
        s
    }
}

fn clamp(i: u8) -> (r: u8)
    ensures
        r == clamp15(i),
{
    if i < 1 {
        1
    } else if i > 5 {
        5
    } else {
        i
    }
}

} // verus!
