//! The settings of a drill as its user has chosen them, and what they mean:
//! which preparations and strikes a round may draw from, and how many attacks
//! it may have.

use crate::attack_sequence::AttackSequenceLength;
use crate::preparation::{Preparation, StreichenCount};
use crate::sets::{PreparationSet, StrikeSet};
use crate::types::{Guard, Strike};
use crate::MeyerCross;
use vstd::prelude::*;

verus! {

/// What the user has selected. Each `bool` is one checkbox of the settings
/// panel, each count one slider.
pub struct UiState {
    pub streichen: bool,
    pub random_streichen: bool,
    pub huten: bool,
    pub tag_left: bool,
    pub tag_right: bool,
    pub tag_above: bool,
    pub pflug_left: bool,
    pub pflug_right: bool,
    pub ochs_left: bool,
    pub ochs_right: bool,
    pub eisenport: bool,
    pub langort: bool,
    pub alber: bool,
    pub long_edge_allowed: bool,
    pub short_edge_allowed: bool,
    pub flat_allowed: bool,
    pub fehler_allowed: bool,
    pub doppelfehler_allowed: bool,
    pub attack_count_min: usize,
    pub attack_count_max: usize,
    pub timer_active: bool,
    pub time_for_preparation_ms: usize,
    pub time_per_strike_ms: usize,
    pub apply_pending: bool,
}

/// `item` alone where `selected` holds, else nothing.
pub open spec fn only_if<T>(selected: bool, item: T) -> Seq<T> {
    if selected {
        seq![item]
    } else {
        Seq::empty()
    }
}

impl UiState {
    /// The settings of a fresh panel: sweeps as preparation, long-edge
    /// strikes only, four attacks, no timer, nothing waiting to be applied.
    pub fn new() -> (state: UiState)
        ensures
            state == (UiState {
                streichen: true,
                random_streichen: false,
                huten: false,
                tag_left: false,
                tag_right: false,
                tag_above: false,
                pflug_left: false,
                pflug_right: false,
                ochs_left: false,
                ochs_right: false,
                eisenport: false,
                langort: false,
                alber: false,
                long_edge_allowed: true,
                short_edge_allowed: false,
                flat_allowed: false,
                fehler_allowed: false,
                doppelfehler_allowed: false,
                attack_count_min: 4,
                attack_count_max: 4,
                timer_active: false,
                time_for_preparation_ms: 2000,
                time_per_strike_ms: 2000,
                apply_pending: false,
            }),
    {
        UiState {
            streichen: true,
            random_streichen: false,
            huten: false,
            tag_left: false,
            tag_right: false,
            tag_above: false,
            pflug_left: false,
            pflug_right: false,
            ochs_left: false,
            ochs_right: false,
            eisenport: false,
            langort: false,
            alber: false,
            long_edge_allowed: true,
            short_edge_allowed: false,
            flat_allowed: false,
            fehler_allowed: false,
            doppelfehler_allowed: false,
            attack_count_min: 4,
            attack_count_max: 4,
            timer_active: false,
            time_for_preparation_ms: 2000,
            time_per_strike_ms: 2000,
            apply_pending: false,
        }
    }

    /// After the lower attack count has moved: the upper one follows it
    /// where it would lie below.
    pub fn raise_attack_count_max(&mut self)
        ensures
            *final(self) == (UiState {
                attack_count_max: if old(self).attack_count_min > old(self).attack_count_max {
                    old(self).attack_count_min
                } else {
                    old(self).attack_count_max
                },
                ..*old(self)
            }),
    {
        if self.attack_count_min > self.attack_count_max {
            self.attack_count_max = self.attack_count_min;
        }
    }

    /// After the upper attack count has moved: the lower one follows it
    /// where it would lie above.
    pub fn lower_attack_count_min(&mut self)
        ensures
            *final(self) == (UiState {
                attack_count_min: if old(self).attack_count_max < old(self).attack_count_min {
                    old(self).attack_count_max
                } else {
                    old(self).attack_count_min
                },
                ..*old(self)
            }),
    {
        if self.attack_count_max < self.attack_count_min {
            self.attack_count_min = self.attack_count_max;
        }
    }

    /// The settings with nothing left to apply.
    pub open spec fn applied(self) -> UiState {
        UiState { apply_pending: false, ..self }
    }

    /// Notes that the settings have been applied.
    fn clear_pending(&mut self)
        ensures
            *final(self) == old(self).applied(),
    {
        self.apply_pending = false;
    }

    /// The strikes that are selected, in the order of the panel.
    pub open spec fn selected_strikes(&self) -> Seq<Strike> {
        only_if(self.long_edge_allowed, Strike::Long) + only_if(
            self.short_edge_allowed,
            Strike::Short,
        ) + only_if(self.flat_allowed, Strike::Flat) + only_if(self.fehler_allowed, Strike::Fehler)
    }

    /// The sweeps that are selected: any number of them where the count is
    /// left to chance, else three where sweeps are selected at all.
    pub open spec fn selected_streichen(&self) -> Seq<Preparation> {
        if self.random_streichen {
            seq![
                Preparation::Streichen(StreichenCount::One),
                Preparation::Streichen(StreichenCount::Two),
                Preparation::Streichen(StreichenCount::Three),
            ]
        } else {
            only_if(self.streichen, Preparation::Streichen(StreichenCount::Three))
        }
    }

    /// The guards in the order of the panel, each with its checkbox.
    pub open spec fn guard_choices(&self) -> Seq<(bool, Guard)> {
        seq![
            (self.tag_left, Guard::TagLeft),
            (self.tag_right, Guard::TagRight),
            (self.tag_above, Guard::TagAbove),
            (self.pflug_left, Guard::PflugLeft),
            (self.pflug_right, Guard::PflugRight),
            (self.ochs_left, Guard::OchsLeft),
            (self.ochs_right, Guard::OchsRight),
            (self.eisenport, Guard::Eisenport),
            (self.langort, Guard::Langort),
            (self.alber, Guard::Alber),
        ]
    }

    /// The preparations that are selected, in the order of the panel: the
    /// sweeps, then the guards whose checkbox is set.
    pub open spec fn selected_preparations(&self) -> Seq<Preparation> {
        self.selected_streichen() + checked_guards(self.guard_choices())
    }

    /// Whether the checkbox of `strike` is set.
    pub open spec fn selects_strike(&self, strike: Strike) -> bool {
        match strike {
            Strike::Long => self.long_edge_allowed,
            Strike::Short => self.short_edge_allowed,
            Strike::Flat => self.flat_allowed,
            Strike::Fehler => self.fehler_allowed,
        }
    }

    /// Whether the checkbox of `guard` is set.
    pub open spec fn selects_guard(&self, guard: Guard) -> bool {
        match guard {
            Guard::TagLeft => self.tag_left,
            Guard::TagRight => self.tag_right,
            Guard::TagAbove => self.tag_above,
            Guard::PflugLeft => self.pflug_left,
            Guard::PflugRight => self.pflug_right,
            Guard::OchsLeft => self.ochs_left,
            Guard::OchsRight => self.ochs_right,
            Guard::Eisenport => self.eisenport,
            Guard::Langort => self.langort,
            Guard::Alber => self.alber,
        }
    }

    /// Whether a round may open with `preparation`: with a guard whose
    /// checkbox is set, with any number of sweeps where the count is left to
    /// chance, else with three sweeps where sweeps are selected.
    pub open spec fn selects_preparation(&self, preparation: Preparation) -> bool {
        match preparation {
            Preparation::Static(guard) => self.selects_guard(guard),
            Preparation::Streichen(count) => self.random_streichen || (self.streichen && count
                == StreichenCount::Three),
        }
    }

    /// The strikes whose checkbox is set.
    pub open spec fn strike_selection(&self) -> Set<Strike> {
        Set::new(|strike: Strike| self.selects_strike(strike))
    }

    /// The preparations with which a round may open.
    pub open spec fn preparation_selection(&self) -> Set<Preparation> {
        Set::new(|preparation: Preparation| self.selects_preparation(preparation))
    }

    /// The selected strikes are those whose checkbox is set, each once.
    pub proof fn lemma_selected_strikes(&self)
        ensures
            self.selected_strikes().no_duplicates(),
            self.selected_strikes().to_set() == self.strike_selection(),
    {
        let selected = self.selected_strikes();
        assert forall|strike: Strike| self.selects_strike(strike) implies selected.contains(
            strike,
        ) by {
            assert(exists|at: int| 0 <= at < selected.len() && selected[at] == strike) by {
                let long: int = if self.long_edge_allowed { 1 } else { 0 };
                let short: int = if self.short_edge_allowed { 1 } else { 0 };
                let flat: int = if self.flat_allowed { 1 } else { 0 };
                match strike {
                    Strike::Long => assert(selected[0] == strike),
                    Strike::Short => assert(selected[long] == strike),
                    Strike::Flat => assert(selected[long + short] == strike),
                    Strike::Fehler => assert(selected[long + short + flat] == strike),
                }
            }
        }
    }

    /// The selected preparations are those with which a round may open,
    /// each once.
    pub proof fn lemma_selected_preparations(&self)
        ensures
            self.selected_preparations().no_duplicates(),
            self.selected_preparations().to_set() == self.preparation_selection(),
    {
        let sweeps = self.selected_streichen();
        let choices = self.guard_choices();
        let guards = checked_guards(choices);
        lemma_checked_guards(choices);
        assert forall|preparation: Preparation|
            (sweeps + guards).contains(preparation) <==> self.selects_preparation(
                preparation,
            ) by {
            vstd::seq_lib::lemma_seq_concat_contains_all_elements(sweeps, guards, preparation);
            if let Preparation::Streichen(count) = preparation {
                if self.selects_preparation(preparation) {
                    let at: int = if self.random_streichen {
                        count.number() - 1
                    } else {
                        0
                    };
                    assert(sweeps[at] == preparation);
                }
            }
        }
        assert forall|i: int, j: int|
            0 <= i < sweeps.len() && 0 <= j < guards.len() implies sweeps[i] != guards[j] by {
            assert(guards.contains(guards[j]));
        }
    }

    /// The strikes that a round may draw from.
    pub fn allowed_strikes(&self) -> (strikes: StrikeSet)
        ensures
            strikes@ == self.strike_selection(),
            strikes.members() == self.selected_strikes(),
    {
        let mut strikes = StrikeSet::new();
        if self.long_edge_allowed {
            strikes.insert(Strike::Long);
        }
        if self.short_edge_allowed {
            strikes.insert(Strike::Short);
        }
        if self.flat_allowed {
            strikes.insert(Strike::Flat);
        }
        if self.fehler_allowed {
            strikes.insert(Strike::Fehler);
        }
        strikes
    }

    /// The preparations that a round may draw from.
    pub fn allowed_preparations(&self) -> (preparations: PreparationSet)
        ensures
            preparations@ == self.preparation_selection(),
            preparations.members() == self.selected_preparations(),
    {
        let mut preparations = PreparationSet::new();
        if self.random_streichen {
            preparations.insert(Preparation::Streichen(StreichenCount::One));
            preparations.insert(Preparation::Streichen(StreichenCount::Two));
            preparations.insert(Preparation::Streichen(StreichenCount::Three));
        } else if self.streichen {
            preparations.insert(Preparation::Streichen(StreichenCount::Three));
        }

        let guards = [
            (self.tag_left, Guard::TagLeft),
            (self.tag_right, Guard::TagRight),
            (self.tag_above, Guard::TagAbove),
            (self.pflug_left, Guard::PflugLeft),
            (self.pflug_right, Guard::PflugRight),
            (self.ochs_left, Guard::OchsLeft),
            (self.ochs_right, Guard::OchsRight),
            (self.eisenport, Guard::Eisenport),
            (self.langort, Guard::Langort),
            (self.alber, Guard::Alber),
        ];
        assert(guards@ =~= self.guard_choices());
        for i in 0..10
            invariant
                guards@ == self.guard_choices(),
                preparations.members() == self.selected_streichen() + checked_guards(
                    guards@.take(i as int),
                ),
                forall|member: Preparation|
                    preparations@.contains(member) ==> member is Streichen || exists|j: int|
                        0 <= j < i && member == Preparation::Static(#[trigger] guards@[j].1),
        {
            let (checked, guard) = guards[i];
            let ghost before = preparations@;
            if checked {
                preparations.insert(Preparation::Static(guard));
            }
            proof {
                assert(guards@.take(i + 1).drop_last() =~= guards@.take(i as int));
                assert forall|member: Preparation|
                    preparations@.contains(member) implies member is Streichen || exists|j: int|
                        0 <= j < i + 1 && member == Preparation::Static(
                            #[trigger] guards@[j].1,
                        ) by {
                }
            }
        }
        proof {
            assert(guards@.take(10) =~= guards@);
            preparations.lemma_view();
            self.lemma_selected_preparations();
        }
        preparations
    }
}

/// Applies the settings, if that is pending: draws a length between the two
/// attack counts and randomizes a round of `meyer_cross` from what is
/// selected. Whether or not the round could be drawn, nothing is pending
/// afterwards.
///
/// The attack counts must be supported lengths, the lower one not above the
/// upper one.
pub fn apply_ui_selections(meyer_cross: &mut MeyerCross, ui_state: &mut UiState)
    requires
        AttackSequenceLength::MIN_LENGTH <= old(ui_state).attack_count_min <= old(
            ui_state,
        ).attack_count_max <= AttackSequenceLength::MAX_LENGTH,
    ensures
        *final(ui_state) == old(ui_state).applied(),
        !old(ui_state).apply_pending ==> *final(meyer_cross) == *old(meyer_cross),
        old(ui_state).apply_pending ==> exists|length: nat|
            old(ui_state).attack_count_min <= length <= old(ui_state).attack_count_max
                && #[trigger] final(meyer_cross).randomized_from(
                *old(meyer_cross),
                length,
                old(ui_state).preparation_selection(),
                old(ui_state).strike_selection(),
                old(ui_state).doppelfehler_allowed,
            ),
{
    let drawn = AttackSequenceLength::randomized_range(
        ui_state.attack_count_min,
        ui_state.attack_count_max,
    );
    let length = drawn.unwrap();
    let preparations = ui_state.allowed_preparations();
    let strikes = ui_state.allowed_strikes();
    if ui_state.apply_pending {
        let ghost count = length@;
        let _ = meyer_cross.randomize(
            length,
            &preparations,
            &strikes,
            ui_state.doppelfehler_allowed,
        );
        assert(meyer_cross.randomized_from(
            *old(meyer_cross),
            count,
            old(ui_state).preparation_selection(),
            old(ui_state).strike_selection(),
            old(ui_state).doppelfehler_allowed,
        ));
        ui_state.clear_pending();
    }
}

/// What `checked_guards` holds of `choices`: the guards that stand with a set
/// checkbox and nothing else, and none of them twice where `choices` names
/// none twice.
proof fn lemma_checked_guards(choices: Seq<(bool, Guard)>)
    ensures
        forall|preparation: Preparation|
            checked_guards(choices).contains(preparation) <==> preparation is Static
                && choices.contains((true, preparation->Static_0)),
        (forall|i: int, j: int|
            0 <= i < j < choices.len() ==> choices[i].1 != choices[j].1) ==> checked_guards(
            choices,
        ).no_duplicates(),
    decreases choices.len(),
{
    if choices.len() > 0 {
        let earlier = choices.drop_last();
        let (checked, guard) = choices.last();
        let added = only_if(checked, Preparation::Static(guard));
        lemma_checked_guards(earlier);
        assert forall|preparation: Preparation|
            checked_guards(choices).contains(preparation) <==> preparation is Static
                && choices.contains((true, preparation->Static_0)) by {
            vstd::seq_lib::lemma_seq_concat_contains_all_elements(
                checked_guards(earlier),
                added,
                preparation,
            );
            if preparation is Static {
                let choice = (true, preparation->Static_0);
                if choices.contains(choice) {
                    let at = choose|at: int| 0 <= at < choices.len() && choices[at] == choice;
                    if at < earlier.len() {
                        assert(earlier[at] == choice);
                    } else {
                        assert(added[0] == preparation);
                    }
                }
            }
        }
        if forall|i: int, j: int| 0 <= i < j < choices.len() ==> choices[i].1 != choices[j].1 {
            let kept = checked_guards(earlier);
            assert forall|i: int, j: int|
                0 <= i < kept.len() && 0 <= j < added.len() implies kept[i] != added[j] by {
                let before = kept[i];
                assert(kept.contains(before));
            }
        }
    }
}

/// The guards of `choices` whose checkbox is set, as preparations, in the
/// order of `choices`.
pub open spec fn checked_guards(choices: Seq<(bool, Guard)>) -> Seq<Preparation>
    decreases choices.len(),
{
    if choices.len() == 0 {
        Seq::empty()
    } else {
        checked_guards(choices.drop_last()) + only_if(
            choices.last().0,
            Preparation::Static(choices.last().1),
        )
    }
}

} // verus!
