//! The decisions of a publisher of timer events: which subscriber numbers
//! are handed out, which bar the performance is at, and when subscribers are
//! told that the composition context changed.
use vstd::prelude::*;
use crate::bar_reference::{composition_infos, BarReference};
use crate::composition::{Composition, CompositionView};
use crate::performance::composition_bar_total;
use std::collections::HashSet;

verus! {

broadcast use vstd::std_specs::hash::group_hash_axioms;

/// Commands that control a timer.
#[derive(Debug, Clone, Copy, PartialEq, Eq, Structural)]
pub enum TimerCommand {
    Start,
    Pause,
    Stop,
    Resume,
}

/// Where a bar stands in the composition, as told to subscribers.
#[derive(Debug)]
pub struct CompositionContext {
    pub composer_name: String,
    pub composition_name: String,
    /// 1-based movement number.
    pub movement_number: usize,
    pub movement_name: String,
    pub section_name: String,
    /// The bar's 1-based number in the performance.
    pub bar_number: usize,
}

/// The mathematical value of a [`CompositionContext`].
pub struct CompositionContextView {
    pub composer_name: Seq<char>,
    pub composition_name: Seq<char>,
    pub movement_number: usize,
    pub movement_name: Seq<char>,
    pub section_name: Seq<char>,
    pub bar_number: usize,
}

impl View for CompositionContext {
    type V = CompositionContextView;

    open spec fn view(&self) -> CompositionContextView {
        CompositionContextView {
            composer_name: self.composer_name@,
            composition_name: self.composition_name@,
            movement_number: self.movement_number,
            movement_name: self.movement_name@,
            section_name: self.section_name@,
            bar_number: self.bar_number,
        }
    }
}

impl Clone for CompositionContext {
    fn clone(&self) -> (r: Self)
        ensures
            r@ == self@,
    {
        CompositionContext {
            composer_name: self.composer_name.clone(),
            composition_name: self.composition_name.clone(),
            movement_number: self.movement_number,
            movement_name: self.movement_name.clone(),
            section_name: self.section_name.clone(),
            bar_number: self.bar_number,
        }
    }
}

/// The context of bar `bar_number` of the composition's performance, if it
/// has such a bar.
pub open spec fn context_of(c: CompositionView, bar_number: int) -> Option<CompositionContextView> {
    let infos = composition_infos(c);
    if 1 <= bar_number <= infos.len() {
        let info = infos[bar_number - 1];
        let m = c.movements[info.movement_index as int];
        Some(
            CompositionContextView {
                composer_name: c.composer_name,
                composition_name: c.work_name,
                movement_number: (info.movement_index + 1) as usize,
                movement_name: m.name,
                section_name: m.sections[info.section_index as int].name,
                bar_number: bar_number as usize,
            },
        )
    } else {
        None
    }
}

/// The context of bar `bar_number` of the composition's performance.
pub fn composition_context(composition: &Composition, bar_number: usize) -> (r: Option<
    CompositionContext,
>)
    requires
        composition_bar_total(composition@) < usize::MAX,
    ensures
        match r {
            Some(ctx) => context_of(composition@, bar_number as int) == Some(ctx@),
            None => context_of(composition@, bar_number as int) is None,
        },
{
    let bar_ref = BarReference::new(composition);
    match bar_ref.get_bar_objects(bar_number) {
        Some(refs) => {
            assert(composition@.movements.len() == composition.movements.len());
            assert(refs.movement_index < usize::MAX);
            Some(
                CompositionContext {
                    composer_name: composition.composer_name.clone(),
                    composition_name: composition.work_name.clone(),
                    movement_number: refs.movement_index + 1,
                    movement_name: refs.movement.name.clone(),
                    section_name: refs.section.name.clone(),
                    bar_number,
                },
            )
        },
        None => None,
    }
}

/// Two contexts differ in anything but the bar number.
pub open spec fn differs(a: CompositionContextView, b: CompositionContextView) -> bool {
    a.composer_name != b.composer_name || a.composition_name != b.composition_name
        || a.movement_number != b.movement_number || a.movement_name != b.movement_name
        || a.section_name != b.section_name
}

/// The view of a remembered context.
pub open spec fn opt_context_view(o: Option<CompositionContext>) -> Option<CompositionContextView> {
    match o {
        Some(c) => Some(c@),
        None => None,
    }
}

/// What is told, and what is remembered after, when the context `ctx` of
/// a bar comes in and `last` was the last one told: a context that differs
/// from the last one (or the first) is told and remembered; anything else
/// is not told and changes nothing.
pub open spec fn tell(last: Option<CompositionContextView>, ctx: Option<CompositionContextView>) -> (
    Option<CompositionContextView>,
    Option<CompositionContextView>,
) {
    match ctx {
        None => (None, last),
        Some(x) => {
            let changed = match last {
                None => true,
                Some(l) => differs(l, x),
            };
            if changed {
                (Some(x), Some(x))
            } else {
                (None, last)
            }
        },
    }
}

/// A context is told once: the same context coming in again right after
/// is not told again.
pub proof fn lemma_context_told_once(last: Option<CompositionContextView>, ctx: Option<CompositionContextView>)
    ensures
        tell(tell(last, ctx).1, ctx).0 is None,
        tell(tell(last, ctx).1, ctx).1 == tell(last, ctx).1,
{
}

/// Whether subscribers are to be told of `new`: there was no context, or it
/// differs from the last one in anything but the bar number.
pub fn context_changed(last: &Option<CompositionContext>, new: &CompositionContext) -> (b: bool)
    ensures
        b == match last {
            None => true,
            Some(l) => differs(l@, new@),
        },
{
    match last {
        None => true,
        Some(l) => l.composer_name != new.composer_name || l.composition_name
            != new.composition_name || l.movement_number != new.movement_number || l.movement_name
            != new.movement_name || l.section_name != new.section_name,
    }
}

/// The state changes told to subscribers once a command is carried out.
#[derive(Debug, Clone, Copy, PartialEq, Eq, Structural)]
pub enum TimerNotice {
    Started,
    Paused,
    Stopped,
    Resumed,
}

/// The notice that a carried-out command gives.
pub open spec fn notice_of(command: TimerCommand) -> TimerNotice {
    match command {
        TimerCommand::Start => TimerNotice::Started,
        TimerCommand::Pause => TimerNotice::Paused,
        TimerCommand::Stop => TimerNotice::Stopped,
        TimerCommand::Resume => TimerNotice::Resumed,
    }
}

/// The bar whose context is told before the timer carries out `command`:
/// bar 1 on a start, the current bar on a resume; none on the others or
/// without a composition.
pub open spec fn context_bar(command: TimerCommand, has_composition: bool, current_bar_number: usize) -> Option<usize> {
    if !has_composition {
        None
    } else {
        match command {
            TimerCommand::Start => Some(1usize),
            TimerCommand::Resume => Some(current_bar_number),
            _ => None,
        }
    }
}

/// The bar whose context is told before the timer carries out `command`.
pub fn context_bar_for(command: TimerCommand, has_composition: bool, current_bar_number: usize) -> (r:
    Option<usize>)
    ensures
        r == context_bar(command, has_composition, current_bar_number),
{
    if !has_composition {
        return None;
    }
    match command {
        TimerCommand::Start => Some(1),
        TimerCommand::Resume => Some(current_bar_number),
        _ => None,
    }
}

/// The intervals of a tempo sequence of `interval_count` intervals that a
/// timer takes its bars and start tempo from (the first) and its end tempo
/// from (the last); an error for an empty sequence.
pub fn timer_interval_span(interval_count: usize) -> (r: Result<(usize, usize), String>)
    ensures
        match r {
            Ok((first, last)) => interval_count > 0 && first == 0 && last == interval_count - 1,
            Err(m) => interval_count == 0 && m@ == "Tempo sequence must contain at least one interval"@,
        },
{
    if interval_count == 0 {
        return Err("Tempo sequence must contain at least one interval".to_owned());
    }
    Ok((0, interval_count - 1))
}

/// What a publisher remembers between events: the bar reached and the last
/// context told to subscribers.
#[derive(Debug)]
pub struct PublisherState {
    pub current_bar_number: usize,
    pub last_composition_info: Option<CompositionContext>,
}

impl PublisherState {
    /// At bar 1, no context told yet.
    pub fn new() -> (s: PublisherState)
        ensures
            s.current_bar_number == 1,
            s.last_composition_info is None,
    {
        PublisherState { current_bar_number: 1, last_composition_info: None }
    }

    /// A stop: back to bar 1, no context told.
    pub fn reset(&mut self)
        ensures
            final(self).current_bar_number == 1,
            final(self).last_composition_info is None,
    {
        self.current_bar_number = 1;
        self.last_composition_info = None;
    }

    /// A beat of the bar with 0-based index `bar_index` was played.
    pub fn note_beat(&mut self, bar_index: usize)
        requires
            bar_index < usize::MAX,
        ensures
            final(self).current_bar_number == bar_index + 1,
            final(self).last_composition_info == old(self).last_composition_info,
    {
        self.current_bar_number = bar_index + 1;
    }

    /// The context of bar `bar_number`, returned (and remembered) where it
    /// is to be told to subscribers: the bar exists and its context differs
    /// from the last one told.
    pub fn update_context(&mut self, composition: &Composition, bar_number: usize) -> (r: Option<
        CompositionContext,
    >)
        requires
            composition_bar_total(composition@) < usize::MAX,
        ensures
            final(self).current_bar_number == old(self).current_bar_number,
            (opt_context_view(r), opt_context_view(final(self).last_composition_info)) == tell(
                opt_context_view(old(self).last_composition_info),
                context_of(composition@, bar_number as int),
            ),
            match context_of(composition@, bar_number as int) {
                None => r is None && final(self).last_composition_info == old(
                    self,
                ).last_composition_info,
                Some(ctx) => {
                    let changed = match old(self).last_composition_info {
                        None => true,
                        Some(l) => differs(l@, ctx),
                    };
                    if changed {
                        &&& (r matches Some(x) && x@ == ctx)
                        &&& (final(self).last_composition_info matches Some(y) && y@ == ctx)
                    } else {
                        r is None && final(self).last_composition_info == old(
                            self,
                        ).last_composition_info
                    }
                },
            },
    {
        match composition_context(composition, bar_number) {
            Some(ctx) => {
                if context_changed(&self.last_composition_info, &ctx) {
                    self.last_composition_info = Some(ctx.clone());
                    Some(ctx)
                } else {
                    None
                }
            },
            None => None,
        }
    }

    /// Completes `command` once the timer has answered `timer_result`: an
    /// error is passed on and nothing is told or changed; else a stop
    /// resets the state, and the command's notice is to be told.
    pub fn finish_command(&mut self, command: TimerCommand, timer_result: Result<(), String>) -> (r:
        Result<TimerNotice, String>)
        ensures
            match timer_result {
                Err(e) => r == Err::<TimerNotice, String>(e) && *final(self) == *old(self),
                Ok(()) => {
                    &&& r == Ok::<TimerNotice, String>(notice_of(command))
                    &&& if command == TimerCommand::Stop {
                        final(self).current_bar_number == 1 && final(self).last_composition_info is None
                    } else {
                        *final(self) == *old(self)
                    }
                },
            },
    {
        match timer_result {
            Err(e) => Err(e),
            Ok(()) => match command {
                TimerCommand::Start => Ok(TimerNotice::Started),
                TimerCommand::Pause => Ok(TimerNotice::Paused),
                TimerCommand::Stop => {
                    self.reset();
                    Ok(TimerNotice::Stopped)
                },
                TimerCommand::Resume => Ok(TimerNotice::Resumed),
            },
        }
    }

    /// A beat of bar `bar_index` (0-based) was played: the bar number moves
    /// there, and with a composition its context is returned where it is to
    /// be told (see [`PublisherState::update_context`]).
    pub fn on_beat(&mut self, composition: Option<&Composition>, bar_index: usize) -> (r: Option<
        CompositionContext,
    >)
        requires
            bar_index < usize::MAX,
            match composition {
                Some(c) => composition_bar_total(c@) < usize::MAX,
                None => true,
            },
        ensures
            final(self).current_bar_number == bar_index + 1,
            match composition {
                None => r is None && final(self).last_composition_info == old(
                    self,
                ).last_composition_info,
                Some(c) => match context_of(c@, bar_index + 1) {
                    None => r is None && final(self).last_composition_info == old(
                        self,
                    ).last_composition_info,
                    Some(ctx) => {
                        let changed = match old(self).last_composition_info {
                            None => true,
                            Some(l) => differs(l@, ctx),
                        };
                        if changed {
                            &&& (r matches Some(x) && x@ == ctx)
                            &&& (final(self).last_composition_info matches Some(y) && y@ == ctx)
                        } else {
                            r is None && final(self).last_composition_info == old(
                                self,
                            ).last_composition_info
                        }
                    },
                },
            },
    {
        self.note_beat(bar_index);
        match composition {
            Some(c) => self.update_context(c, bar_index + 1),
            None => None,
        }
    }
}

/// The subscriber numbers in use, and the next one to hand out.
#[derive(Debug)]
pub struct SubscriberIds {
    next_id: usize,
    ids: HashSet<usize>,
}

impl SubscriberIds {
    /// Whether `id` is in use.
    pub closed spec fn in_use(self, id: usize) -> bool {
        self.ids@.contains(id)
    }

    /// The next number to hand out.
    pub closed spec fn next(self) -> usize {
        self.next_id
    }

    #[verifier::type_invariant]
    closed spec fn well_formed(self) -> bool {
        &&& self.next_id >= 1
        &&& forall|id: usize| #[trigger] self.ids@.contains(id) ==> 1 <= id < self.next_id
    }

    /// No number in use; the first one handed out is 1.
    pub fn new() -> (s: SubscriberIds)
        ensures
            forall|id: usize| !s.in_use(id),
            s.next() == 1,
    {
        SubscriberIds { next_id: 1, ids: HashSet::new() }
    }

    /// Hands out the next number: numbers are handed out 1, 2, 3, ..., each
    /// once.
    pub fn subscribe(&mut self) -> (id: usize)
        requires
            old(self).next() < usize::MAX,
        ensures
            id == old(self).next(),
            !old(self).in_use(id),
            final(self).next() == id + 1,
            forall|x: usize| final(self).in_use(x) == (old(self).in_use(x) || x == id),
    {
        proof {
            use_type_invariant(&*self);
        }
        let id = self.next_id;
        let mut ids: HashSet<usize> = HashSet::new();
        std::mem::swap(&mut ids, &mut self.ids);
        ids.insert(id);
        *self = SubscriberIds { next_id: id + 1, ids };
        id
    }

    /// Gives a number back: true where it was in use.
    pub fn unsubscribe(&mut self, id: usize) -> (removed: bool)
        ensures
            removed == old(self).in_use(id),
            forall|x: usize| final(self).in_use(x) == (old(self).in_use(x) && x != id),
            final(self).next() == old(self).next(),
    {
        proof {
            use_type_invariant(&*self);
        }
        let next_id = self.next_id;
        let mut ids: HashSet<usize> = HashSet::new();
        std::mem::swap(&mut ids, &mut self.ids);
        let removed = ids.remove(&id);
        *self = SubscriberIds { next_id, ids };
        removed
    }
}

} // verus!
