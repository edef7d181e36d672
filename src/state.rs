use vstd::prelude::*;
use crate::animation::AnimationState;
use crate::input::{
    decode_event, decode_key, event_command, key_command, CallSign, Command, InputEvent, KeyInput,
};
use crate::sample::uniform_below;
use crate::screen::Screen;
use crate::series::{
    appended, appended_all, lemma_appended_all_len, SeriesBuffer, SERIES_CAPACITY,
};

verus! {

/// Number of sample series the application keeps.
pub const SERIES_COUNT: usize = 3;

/// Samples are drawn from `0..SAMPLE_LIMIT`.
pub const SAMPLE_LIMIT: u64 = 100;

/// Number of frames in the intro animation.
pub const INTRO_FRAME_COUNT: usize = 2;

/// The application as a mathematical value.
pub struct AppModel {
    pub running: bool,
    pub call_sign: Seq<char>,
    pub screen: Screen,
    pub series: Seq<Seq<u64>>,
    pub animation: AnimationState,
}

impl AppModel {
    /// One history per series, none over capacity, and an intro frame that
    /// exists.
    pub open spec fn wf(self) -> bool {
        &&& self.series.len() == SERIES_COUNT
        &&& forall|i: int| 0 <= i < SERIES_COUNT ==> #[trigger] self.series[i].len() <= SERIES_CAPACITY
        &&& self.animation.frame_index < INTRO_FRAME_COUNT
    }

    /// The application with an empty name replaced by the primary one.
    pub open spec fn with_name(self) -> AppModel {
        if self.call_sign.len() == 0 {
            AppModel { call_sign: CallSign::Primary.spec_text(), ..self }
        } else {
            self
        }
    }

    /// The application after a command.
    pub open spec fn command(self, c: Command) -> AppModel {
        match c {
            Command::Quit => AppModel { running: false, ..self },
            Command::Next => AppModel { screen: self.screen.successor(), ..self },
            Command::Previous => AppModel { screen: self.screen.predecessor(), ..self },
            Command::SetCallSign(s) => AppModel { call_sign: s.spec_text(), ..self },
            Command::Ignore => self,
        }
    }

    /// The histories after one sample is appended to each.
    pub open spec fn series_appended(self, samples: Seq<u64>) -> Seq<Seq<u64>> {
        Seq::new(self.series.len(), |i: int| appended(self.series[i], samples[i]))
    }

    /// The application after one idle tick per entry of `draws`, each entry
    /// holding the samples drawn in that tick.
    pub open spec fn ticked_all(self, draws: Seq<Seq<u64>>) -> AppModel
        decreases draws.len(),
    {
        if draws.len() == 0 {
            self
        } else {
            self.ticked(draws[0]).ticked_all(draws.drop_first())
        }
    }

    /// The application after one idle tick in which `samples` were drawn.
    pub open spec fn ticked(self, samples: Seq<u64>) -> AppModel {
        AppModel {
            series: self.series_appended(samples),
            animation: self.animation.ticked(self.screen == Screen::Intro, INTRO_FRAME_COUNT as nat),
            ..self
        }
    }
}

/// What the renderer of the current screen is given: the intro frame to
/// draw, the name to show, or the sample histories.
#[derive(Debug)]
pub enum ScreenView {
    Intro(usize),
    First(String),
    Second(String),
    Third(Vec<Vec<u64>>),
}

impl ScreenView {
    /// Whether this is what the renderer is given for the application `m`.
    pub open spec fn shows(self, m: AppModel) -> bool {
        match self {
            ScreenView::Intro(f) => m.screen == Screen::Intro && f == m.animation.frame_index,
            ScreenView::First(s) => m.screen == Screen::First && s@ == m.call_sign,
            ScreenView::Second(s) => m.screen == Screen::Second && s@ == m.call_sign,
            ScreenView::Third(v) => {
                &&& m.screen == Screen::Third
                &&& v@.len() == m.series.len()
                &&& forall|i: int| 0 <= i < v@.len() ==> (#[trigger] v@[i])@ == m.series[i]
            },
        }
    }
}

/// The application: whether it runs, the name shown, the screen shown, the
/// sample histories of the telemetry screen and the intro animation.
#[derive(Debug)]
pub struct App {
    running: bool,
    call_sign: String,
    screen: Screen,
    spark_data: Vec<SeriesBuffer>,
    intro: AnimationState,
}

impl View for App {
    type V = AppModel;

    closed spec fn view(&self) -> AppModel {
        AppModel {
            running: self.running,
            call_sign: self.call_sign@,
            screen: self.screen,
            series: self.spark_data@.map_values(|b: SeriesBuffer| b@),
            animation: self.intro,
        }
    }
}

impl App {
    /// Holds from construction on: every method keeps it.
    pub open spec fn wf(&self) -> bool {
        self@.wf()
    }

    /// A stopped application on the intro screen, showing the primary name,
    /// with every series filled to capacity with random samples.
    pub fn new() -> (r: App)
        ensures
            r.wf(),
            !r@.running,
            r@.call_sign == CallSign::Primary.spec_text(),
            r@.screen == Screen::Intro,
            r@.animation == (AnimationState { frame_index: 0, tick: 0 }),
            forall|i: int| 0 <= i < SERIES_COUNT ==> #[trigger] r@.series[i].len() == SERIES_CAPACITY,
            forall|i: int, j: int|
                0 <= i < SERIES_COUNT && 0 <= j < SERIES_CAPACITY ==> #[trigger] r@.series[i][j]
                    < SAMPLE_LIMIT,
    {
        let mut spark_data: Vec<SeriesBuffer> = Vec::new();
        let mut i: usize = 0;
        while i < SERIES_COUNT
            invariant
                i <= SERIES_COUNT,
                spark_data@.len() == i,
                forall|k: int| 0 <= k < i ==> #[trigger] spark_data@[k]@.len() == SERIES_CAPACITY,
                forall|k: int, j: int|
                    0 <= k < i && 0 <= j < SERIES_CAPACITY ==> #[trigger] spark_data@[k]@[j]
                        < SAMPLE_LIMIT,
            decreases SERIES_COUNT - i,
        {
            let mut buffer = SeriesBuffer::new();
            let mut j: usize = 0;
            while j < SERIES_CAPACITY
                invariant
                    j <= SERIES_CAPACITY,
                    buffer.wf(),
                    buffer@.len() == j,
                    forall|m: int| 0 <= m < j ==> #[trigger] buffer@[m] < SAMPLE_LIMIT,
                decreases SERIES_CAPACITY - j,
            {
                let x = uniform_below(SAMPLE_LIMIT);
                buffer.push_sample(x);
                j = j + 1;
            }
            spark_data.push(buffer);
            i = i + 1;
        }
        let r = App {
            running: false,
            call_sign: CallSign::Primary.text().to_string(),
            screen: Screen::Intro,
            spark_data,
            intro: AnimationState::new(),
        };
        proof {
            assert(r@.series.len() == SERIES_COUNT);
        }
        r
    }
    /// Marks the application as running; the event loop runs while it is.
    pub fn start(&mut self)
        ensures
            final(self)@ == (AppModel { running: true, ..old(self)@ }),
    {
        self.running = true;
    }

    pub fn is_running(&self) -> (r: bool)
        ensures
            r == self@.running,
    {
        self.running
    }

    /// Stops the application, whatever screen or name it shows.
    pub fn quit(&mut self)
        ensures
            final(self)@ == (AppModel { running: false, ..old(self)@ }),
            !final(self)@.running,
    {
        self.running = false;
    }

    /// Moves to the next screen of the cycle.
    pub fn next_screen(&mut self)
        ensures
            final(self)@ == (AppModel { screen: old(self)@.screen.successor(), ..old(self)@ }),
    {
        self.screen = self.screen.next();
    }

    /// Moves to the previous screen of the cycle.
    pub fn previous_screen(&mut self)
        ensures
            final(self)@ == (AppModel { screen: old(self)@.screen.predecessor(), ..old(self)@ }),
    {
        self.screen = self.screen.previous();
    }

    /// Replaces the name shown.
    pub fn set_call_sign(&mut self, next: &str)
        ensures
            final(self)@ == (AppModel { call_sign: next@, ..old(self)@ }),
    {
        self.call_sign = next.to_string();
    }

    /// Carries out a command.
    pub fn apply(&mut self, c: Command)
        ensures
            final(self)@ == old(self)@.command(c),
    {
        match c {
            Command::Quit => self.quit(),
            Command::Next => self.next_screen(),
            Command::Previous => self.previous_screen(),
            Command::SetCallSign(s) => self.set_call_sign(s.text()),
            Command::Ignore => {},
        }
    }

    /// Carries out what a pressed key stands for.
    pub fn on_key_event(&mut self, key: KeyInput)
        ensures
            final(self)@ == old(self)@.command(key_command(key)),
    {
        let c = decode_key(key);
        self.apply(c);
    }

    /// Carries out what a terminal event stands for; anything but a key
    /// press leaves the application as it was.
    pub fn handle_event(&mut self, e: InputEvent)
        ensures
            final(self)@ == old(self)@.command(event_command(e)),
    {
        let c = decode_event(e);
        self.apply(c);
    }

    /// Appends one sample to each series, dropping the oldest sample of a
    /// series that would exceed its capacity.
    pub fn update_spark_data(&mut self, samples: [u64; SERIES_COUNT])
        requires
            old(self).wf(),
        ensures
            final(self).wf(),
            final(self)@ == (AppModel { series: old(self)@.series_appended(samples@), ..old(self)@ }),
    {
        let ghost before = self@.series;
        proof {
            assert forall|k: int| 0 <= k < SERIES_COUNT implies (#[trigger] self.spark_data@[k]).wf() by {
                assert(before[k] == self.spark_data@[k]@);
            }
        }
        let mut i: usize = 0;
        while i < SERIES_COUNT
            invariant
                i <= SERIES_COUNT,
                before == old(self)@.series,
                self.spark_data@.len() == SERIES_COUNT,
                self.running == old(self).running,
                self.call_sign == old(self).call_sign,
                self.screen == old(self).screen,
                self.intro == old(self).intro,
                forall|k: int| 0 <= k < SERIES_COUNT ==> (#[trigger] self.spark_data@[k]).wf(),
                forall|k: int|
                    0 <= k < i ==> (#[trigger] self.spark_data@[k])@ == appended(
                        before[k],
                        samples@[k],
                    ),
                forall|k: int| i <= k < SERIES_COUNT ==> (#[trigger] self.spark_data@[k])@ == before[k],
            decreases SERIES_COUNT - i,
        {
            let mut buffer = SeriesBuffer::new();
            self.spark_data.set_and_swap(i, &mut buffer);
            buffer.push_sample(samples[i]);
            self.spark_data.set_and_swap(i, &mut buffer);
            i = i + 1;
        }
        proof {
            assert(self@.series =~= old(self)@.series_appended(samples@));
        }
    }

    /// Counts one idle tick for the intro animation.
    pub fn update_intro_animation(&mut self)
        ensures
            final(self)@ == (AppModel {
                animation: old(self)@.animation.ticked(
                    old(self)@.screen == Screen::Intro,
                    INTRO_FRAME_COUNT as nat,
                ),
                ..old(self)@
            }),
    {
        let on_intro = self.screen == Screen::Intro;
        self.intro.tick(on_intro, INTRO_FRAME_COUNT);
    }

    /// One idle tick with the given samples, one per series.
    pub fn tick_with_samples(&mut self, samples: [u64; SERIES_COUNT])
        requires
            old(self).wf(),
        ensures
            final(self).wf(),
            final(self)@ == old(self)@.ticked(samples@),
    {
        self.update_spark_data(samples);
        self.update_intro_animation();
    }

    /// One idle tick: a random sample below `SAMPLE_LIMIT` is appended to
    /// each series and the intro animation counts the tick.
    pub fn on_tick(&mut self)
        requires
            old(self).wf(),
        ensures
            final(self).wf(),
            exists|samples: Seq<u64>|
                samples.len() == SERIES_COUNT && (forall|k: int|
                    0 <= k < SERIES_COUNT ==> #[trigger] samples[k] < SAMPLE_LIMIT)
                    && final(self)@ == old(self)@.ticked(samples),
    {
        let a = uniform_below(SAMPLE_LIMIT);
        let b = uniform_below(SAMPLE_LIMIT);
        let c = uniform_below(SAMPLE_LIMIT);
        let samples: [u64; SERIES_COUNT] = [a, b, c];
        self.tick_with_samples(samples);
        proof {
            let xs = samples@;
            assert(xs[0] == a && xs[1] == b && xs[2] == c);
            assert(forall|k: int| 0 <= k < SERIES_COUNT ==> #[trigger] xs[k] < SAMPLE_LIMIT);
            assert(xs.len() == SERIES_COUNT);
            assert(self@ == old(self)@.ticked(xs));
        }
    }
    /// Chooses what to draw for the current screen; an empty name is first
    /// replaced by the primary one.
    pub fn current_view(&mut self) -> (r: ScreenView)
        requires
            old(self).wf(),
        ensures
            final(self).wf(),
            final(self)@ == old(self)@.with_name(),
            r.shows(final(self)@),
    {
        if self.call_sign.as_str().is_empty() {
            self.call_sign = CallSign::Primary.text().to_string();
        }
        match self.screen {
            Screen::Intro => ScreenView::Intro(self.intro.frame_index),
            Screen::First => ScreenView::First(self.call_sign.clone()),
            Screen::Second => ScreenView::Second(self.call_sign.clone()),
            Screen::Third => {
                let mut v: Vec<Vec<u64>> = Vec::new();
                let mut i: usize = 0;
                while i < self.spark_data.len()
                    invariant
                        i <= self.spark_data@.len(),
                        v@.len() == i,
                        forall|k: int| 0 <= k < i ==> (#[trigger] v@[k])@ == self.spark_data@[k]@,
                    decreases self.spark_data@.len() - i,
                {
                    v.push(vstd::slice::slice_to_vec(self.spark_data[i].as_slice()));
                    i = i + 1;
                }
                ScreenView::Third(v)
            },
        }
    }

    /// The screen shown.
    pub fn screen(&self) -> (r: Screen)
        ensures
            r == self@.screen,
    {
        self.screen
    }

    /// The name shown.
    pub fn call_sign(&self) -> (r: &str)
        ensures
            r@ == self@.call_sign,
    {
        self.call_sign.as_str()
    }

    /// Where the intro animation stands.
    pub fn animation(&self) -> (r: AnimationState)
        ensures
            r == self@.animation,
    {
        self.intro
    }

    /// The samples of one series, oldest first.
    pub fn series(&self, channel: usize) -> (r: &[u64])
        requires
            self.wf(),
            channel < SERIES_COUNT,
        ensures
            r@ == self@.series[channel as int],
    {
        self.spark_data[channel].as_slice()
    }
}

/// The samples that a run of ticks drew for one series.
pub open spec fn draws_for(draws: Seq<Seq<u64>>, channel: int) -> Seq<u64> {
    Seq::new(draws.len(), |t: int| draws[t][channel])
}

/// A tick keeps the application well formed.
pub proof fn lemma_ticked_wf(m: AppModel, samples: Seq<u64>)
    requires
        m.wf(),
    ensures
        m.ticked(samples).wf(),
{
    let r = m.ticked(samples);
    assert forall|i: int| 0 <= i < SERIES_COUNT implies #[trigger] r.series[i].len()
        <= SERIES_CAPACITY by {
        assert(r.series[i] == appended(m.series[i], samples[i]));
    }
}

/// Over any run of idle ticks each series receives the samples drawn for it
/// in order, and its length is its initial length plus the number of ticks,
/// capped at `SERIES_CAPACITY`.
pub proof fn lemma_ticks_fill_series(m: AppModel, draws: Seq<Seq<u64>>, channel: int)
    requires
        m.wf(),
        0 <= channel < SERIES_COUNT,
    ensures
        m.ticked_all(draws).wf(),
        m.ticked_all(draws).series[channel] == appended_all(
            m.series[channel],
            draws_for(draws, channel),
        ),
        m.ticked_all(draws).series[channel].len() == if m.series[channel].len() + draws.len()
            <= SERIES_CAPACITY {
            m.series[channel].len() + draws.len()
        } else {
            SERIES_CAPACITY as nat
        },
    decreases draws.len(),
{
    if draws.len() == 0 {
        assert(draws_for(draws, channel) =~= Seq::<u64>::empty());
    } else {
        let m1 = m.ticked(draws[0]);
        lemma_ticked_wf(m, draws[0]);
        lemma_ticks_fill_series(m1, draws.drop_first(), channel);
        assert(draws_for(draws.drop_first(), channel) =~= draws_for(draws, channel).drop_first());
        assert(m1.series[channel] == appended(m.series[channel], draws_for(draws, channel)[0]));
    }
    lemma_appended_all_len(m.series[channel], draws_for(draws, channel));
}

/// Quitting stops the application whatever screen and name it shows, and
/// changes nothing else.
pub proof fn lemma_quit_stops(m: AppModel)
    ensures
        !m.command(Command::Quit).running,
        m.command(Command::Quit) == (AppModel { running: false, ..m }),
{
}

/// Setting the same name twice leaves the application as setting it once.
pub proof fn lemma_set_call_sign_idempotent(m: AppModel, c: CallSign)
    ensures
        m.command(Command::SetCallSign(c)).command(Command::SetCallSign(c)) == m.command(
            Command::SetCallSign(c),
        ),
{
}

} // verus!
