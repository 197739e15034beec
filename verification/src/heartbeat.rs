//! The heartbeat: the internal clock that drives consolidation of memory and
//! autonomous curiosity.
//!
//! Every tick either asks memory for a plain `Tick` or, every fifth tick, for a
//! consolidation followed by a query of knowledge gaps.  When the reply to
//! that query arrives, curiosity may fire: a question about the first gap is
//! sent to perception, unless curiosity is cooling down from an earlier
//! question or the gap is the concept asked about last time.
use vstd::prelude::*;

verus! {

/// Number of ticks between two consolidations.
pub const CONSOLIDATION_PERIOD: u32 = 5;

/// Gap replies that must pass, silent, after an autonomous question before
/// another one may be asked.
pub const CURIOSITY_COOLDOWN_CYCLES: u32 = 4;

/// What a tick asks of the memory actor.
#[derive(Clone, Copy, Debug, PartialEq, Eq, Structural)]
pub enum TickAction {
    /// An ordinary tick (boredom slowly raises arousal).
    Tick,
    /// Consolidate the PAD state, then report knowledge gaps and arousal.
    Consolidate,
}

/// The abstract state of the heartbeat.
pub struct HeartbeatView {
    /// Ticks since the last consolidation.
    pub tick_count: nat,
    /// The concept of the last autonomous question, if any.
    pub last_concept: Option<Seq<char>>,
    /// Gap replies left before curiosity may fire again.
    pub cooldown: nat,
}

/// The state after a tick and what the tick asks for.
pub open spec fn tick_step(v: HeartbeatView) -> (HeartbeatView, TickAction) {
    if v.tick_count + 1 >= CONSOLIDATION_PERIOD {
        (HeartbeatView { tick_count: 0, ..v }, TickAction::Consolidate)
    } else {
        (HeartbeatView { tick_count: v.tick_count + 1, ..v }, TickAction::Tick)
    }
}

/// The autonomous question about a knowledge gap.
pub open spec fn curiosity_prompt(gap: Seq<char>) -> Seq<char> {
    "¿Qué más puedes contarme sobre '"@ + gap + "' y cómo se relaciona con lo que ya sabes?"@
}

/// The cooldown once a silent gap reply has been counted.
pub open spec fn cooled(v: HeartbeatView) -> nat {
    if v.cooldown > 0 {
        (v.cooldown - 1) as nat
    } else {
        0
    }
}

/// Curiosity fires on a gap reply: curiosity is above its threshold, there is
/// a gap, no cooldown cycle is pending and the first gap is not the concept
/// asked about last time.
pub open spec fn fires(v: HeartbeatView, gaps: Seq<Seq<char>>, curious: bool) -> bool {
    &&& curious
    &&& gaps.len() > 0
    &&& v.cooldown == 0
    &&& v.last_concept != Some(gaps[0])
}

/// The state after a gap reply and the autonomous question it raises, if any.
pub open spec fn gaps_step(v: HeartbeatView, gaps: Seq<Seq<char>>, curious: bool) -> (
    HeartbeatView,
    Option<Seq<char>>,
) {
    if fires(v, gaps, curious) {
        (
            HeartbeatView {
                last_concept: Some(gaps[0]),
                cooldown: CURIOSITY_COOLDOWN_CYCLES as nat,
                ..v
            },
            Some(curiosity_prompt(gaps[0])),
        )
    } else {
        (HeartbeatView { cooldown: cooled(v), ..v }, None)
    }
}

/// A reachable heartbeat state: fewer than five ticks pending and a cooldown
/// of at most four replies.
pub open spec fn heartbeat_wf(v: HeartbeatView) -> bool {
    v.tick_count < CONSOLIDATION_PERIOD && v.cooldown <= CURIOSITY_COOLDOWN_CYCLES
}

/// The decision state of the heartbeat actor.
pub struct HeartbeatState {
    tick_count: u32,
    last_curiosity_concept: Option<String>,
    curiosity_cooldown: u32,
}

impl View for HeartbeatState {
    type V = HeartbeatView;

    closed spec fn view(&self) -> HeartbeatView {
        HeartbeatView {
            tick_count: self.tick_count as nat,
            last_concept: match self.last_curiosity_concept {
                Some(s) => Some(s@),
                None => None,
            },
            cooldown: self.curiosity_cooldown as nat,
        }
    }
}

impl HeartbeatState {
    #[verifier::type_invariant]
    spec fn wf(&self) -> bool {
        self.tick_count < CONSOLIDATION_PERIOD && self.curiosity_cooldown
            <= CURIOSITY_COOLDOWN_CYCLES
    }

    /// A fresh heartbeat: no ticks, no question asked, no cooldown.
    pub fn new() -> (h: HeartbeatState)
        ensures
            h@ == (HeartbeatView { tick_count: 0, last_concept: None, cooldown: 0 }),
    {
        HeartbeatState { tick_count: 0, last_curiosity_concept: None, curiosity_cooldown: 0 }
    }

    /// Counts a tick of the clock: every fifth tick consolidates.
    pub fn on_tick(&mut self) -> (a: TickAction)
        ensures
            (final(self)@, a) == tick_step(old(self)@),
            heartbeat_wf(final(self)@),
    {
        proof {
            use_type_invariant(&*self);
        }
        if self.tick_count + 1 >= CONSOLIDATION_PERIOD {
            self.tick_count = 0;
            TickAction::Consolidate
        } else {
            self.tick_count = self.tick_count + 1;
            TickAction::Tick
        }
    }

    /// Handles the reply to a gap query.  `curious` says whether curiosity
    /// (arousal plus `ln(1 + gaps.len())`) is above its threshold.  Returns
    /// the autonomous question to send, if curiosity fires.
    pub fn on_gaps(&mut self, gaps: &Vec<String>, curious: bool) -> (q: Option<String>)
        ensures
            (final(self)@, q.deep_view()) == gaps_step(old(self)@, gaps.deep_view(), curious),
            heartbeat_wf(final(self)@),
    {
        proof {
            use_type_invariant(&*self);
        }
        let can_fire = self.curiosity_cooldown == 0;
        if self.curiosity_cooldown > 0 {
            self.curiosity_cooldown = self.curiosity_cooldown - 1;
        }
        let is_new_concept = if gaps.len() > 0 {
            match &self.last_curiosity_concept {
                Some(last) => !(*last == gaps[0]),
                None => true,
            }
        } else {
            false
        };
        if curious && gaps.len() > 0 && can_fire && is_new_concept {
            let gap = gaps[0].clone();
            let mut prompt = "¿Qué más puedes contarme sobre '".to_string();
            prompt.append(gap.as_str());
            prompt.append("' y cómo se relaciona con lo que ya sabes?");
            self.last_curiosity_concept = Some(gap);
            self.curiosity_cooldown = CURIOSITY_COOLDOWN_CYCLES;
            Some(prompt)
        } else {
            None
        }
    }
}

/// Consolidation comes exactly every fifth tick: from a freshly reset count,
/// four plain ticks are followed by a consolidation, which resets the count.
pub proof fn lemma_consolidation_every_fifth_tick(v: HeartbeatView)
    requires
        v.tick_count == 0,
    ensures
        ({
            let (v1, a1) = tick_step(v);
            let (v2, a2) = tick_step(v1);
            let (v3, a3) = tick_step(v2);
            let (v4, a4) = tick_step(v3);
            let (v5, a5) = tick_step(v4);
            &&& a1 == TickAction::Tick
            &&& a2 == TickAction::Tick
            &&& a3 == TickAction::Tick
            &&& a4 == TickAction::Tick
            &&& a5 == TickAction::Consolidate
            &&& v5 == v
        }),
{
}

/// A tick never leaves more than four ticks pending and never touches the
/// curiosity state.
pub proof fn lemma_tick_keeps_curiosity(v: HeartbeatView)
    requires
        heartbeat_wf(v),
    ensures
        heartbeat_wf(tick_step(v).0),
        tick_step(v).0.last_concept == v.last_concept,
        tick_step(v).0.cooldown == v.cooldown,
{
}

/// After curiosity fires, the next four gap replies raise no question,
/// whatever they hold; the fifth may again.
pub proof fn lemma_cooldown_after_question(
    v: HeartbeatView,
    gaps: Seq<Seq<char>>,
    curious: bool,
    g1: Seq<Seq<char>>,
    c1: bool,
    g2: Seq<Seq<char>>,
    c2: bool,
    g3: Seq<Seq<char>>,
    c3: bool,
    g4: Seq<Seq<char>>,
    c4: bool,
)
    requires
        gaps_step(v, gaps, curious).1 is Some,
    ensures
        ({
            let v0 = gaps_step(v, gaps, curious).0;
            let (v1, q1) = gaps_step(v0, g1, c1);
            let (v2, q2) = gaps_step(v1, g2, c2);
            let (v3, q3) = gaps_step(v2, g3, c3);
            let (v4, q4) = gaps_step(v3, g4, c4);
            &&& q1 is None
            &&& q2 is None
            &&& q3 is None
            &&& q4 is None
            &&& v4.cooldown == 0
        }),
{
}

/// Curiosity asks about the first gap whenever it is curious, there is a gap,
/// no cooldown cycle is pending and the first gap is not the concept asked
/// about last time, whatever the later gaps are; the question then becomes
/// the last concept and the cooldown starts over.
pub proof fn lemma_new_first_gap_is_asked(v: HeartbeatView, gaps: Seq<Seq<char>>, curious: bool)
    requires
        curious,
        gaps.len() > 0,
        v.cooldown == 0,
        v.last_concept != Some(gaps[0]),
    ensures
        gaps_step(v, gaps, curious).1 == Some(
            "¿Qué más puedes contarme sobre '"@ + gaps[0] + "' y cómo se relaciona con lo que ya sabes?"@,
        ),
        gaps_step(v, gaps, curious).0.last_concept == Some(gaps[0]),
        gaps_step(v, gaps, curious).0.cooldown == 4,
{
}

/// Without curiosity, without gaps, during a cooldown, or about the same
/// concept as last time, no question is asked and only the cooldown moves.
pub proof fn lemma_no_question_otherwise(v: HeartbeatView, gaps: Seq<Seq<char>>, curious: bool)
    requires
        !curious || gaps.len() == 0 || v.cooldown > 0 || v.last_concept == Some(gaps[0]),
    ensures
        gaps_step(v, gaps, curious).1 is None,
        gaps_step(v, gaps, curious).0.last_concept == v.last_concept,
        gaps_step(v, gaps, curious).0.cooldown == if v.cooldown > 0 {
            v.cooldown - 1
        } else {
            0
        },
{
}

/// Curiosity never asks about the same concept twice in a row, and only asks
/// about the first reported gap.
pub proof fn lemma_question_is_about_a_new_gap(v: HeartbeatView, gaps: Seq<Seq<char>>, curious: bool)
    requires
        gaps_step(v, gaps, curious).1 is Some,
    ensures
        gaps.len() > 0,
        curious,
        v.last_concept != Some(gaps[0]),
        gaps_step(v, gaps, curious).0.last_concept == Some(gaps[0]),
        gaps_step(v, gaps, curious).1 == Some(curiosity_prompt(gaps[0])),
{
}

} // verus!
