//! Layout of the robot charts panel: plots, their series, and recording.
//!
//! The sampled data itself (live buffers and recorded samples) is held by
//! the caller, which applies the [`ChartsEffect`] each update returns.
use vstd::prelude::*;

verus! {

/// Number of colours in the plot palette.
pub const PALETTE_LEN: usize = 8;

/// Variables that can be plotted on an axis.
#[derive(Clone, Copy, Debug, PartialEq, Eq, Structural)]
pub enum PlotVariable {
    Time,
    X,
    Y,
    Theta,
    Vx,
    Vy,
    CmdVx,
    CmdVy,
    CmdAngular,
}

#[derive(Clone, Copy, Debug, PartialEq, Eq, Structural)]
pub enum ChartsMessage {
    AddPlot,
    RemovePlot(usize),
    SetXVar(usize, PlotVariable),
    /// Set the Y variable of series `.1` in plot `.0`.
    SetYVar(usize, usize, PlotVariable),
    /// Add a Y series to plot `.0`.
    AddYVar(usize),
    /// Remove series `.1` from plot `.0`.
    RemoveYVar(usize, usize),
    ToggleRecording,
    ExportCsv,
    ExportComplete,
}

/// One Y series: the variable it shows and its colour in the palette.
#[derive(Clone, Copy, Debug, PartialEq, Eq, Structural)]
pub struct SeriesLayout {
    pub var: PlotVariable,
    pub color_index: usize,
}

pub struct PlotLayout {
    pub x_var: PlotVariable,
    pub series: Vec<SeriesLayout>,
}

impl View for PlotLayout {
    type V = (PlotVariable, Seq<SeriesLayout>);

    open spec fn view(&self) -> (PlotVariable, Seq<SeriesLayout>) {
        (self.x_var, self.series@)
    }
}

/// What the caller does to its sample buffers after an update.
#[derive(Clone, Copy, Debug, PartialEq, Eq, Structural)]
pub enum ChartsEffect {
    Nothing,
    /// A plot was appended with one empty series buffer.
    PlotAdded,
    /// Plot `.0` and its buffers were removed.
    PlotRemoved(usize),
    /// All series buffers of plot `.0` are emptied.
    PlotCleared(usize),
    /// The buffer of series `.1` of plot `.0` is emptied.
    SeriesCleared(usize, usize),
    /// An empty series buffer was appended to plot `.0`.
    SeriesAdded(usize),
    /// Series `.1` of plot `.0` and its buffer were removed.
    SeriesRemoved(usize, usize),
    /// Recording started: recorded samples are dropped and the clock restarts.
    RecordingStarted,
    /// The recorded samples are to be exported.
    Export,
}

pub struct ChartsPanel {
    pub plots: Vec<PlotLayout>,
    pub recording: bool,
    pub active: bool,
    /// Palette position of the next colour handed out (taken modulo the palette size).
    pub next_color_index: usize,
}

/// The panel after handling `msg`, and the effect on the sample buffers.
pub open spec fn charts_step(old: ChartsPanel, new: ChartsPanel, msg: ChartsMessage, effect: ChartsEffect) -> bool {
    &&& new.active == old.active
    &&& msg is ToggleRecording ==> new.recording == !old.recording
    &&& !(msg is ToggleRecording) ==> new.recording == old.recording
    &&& (msg is AddPlot || msg is AddYVar) ==> new.next_color() == old.next_color()
        + (if msg is AddYVar && msg->AddYVar_0 >= old.plots@.len() {
        0nat
    } else {
        1nat
    })
    &&& !(msg is AddPlot || msg is AddYVar) ==> new.next_color() == old.next_color()
    &&& ({
        let before = old.plots_view();
        let after = new.plots_view();
        let color = (old.next_color() % (PALETTE_LEN as nat)) as usize;
        match msg {
            ChartsMessage::AddPlot => {
                &&& after == before.push(
                    (
                        PlotVariable::Time,
                        seq![SeriesLayout { var: PlotVariable::Vx, color_index: color }],
                    ),
                )
                &&& effect == ChartsEffect::PlotAdded
            },
            ChartsMessage::RemovePlot(i) => if i < before.len() {
                after == before.remove(i as int) && effect == ChartsEffect::PlotRemoved(i)
            } else {
                after == before && effect == ChartsEffect::Nothing
            },
            ChartsMessage::SetXVar(i, v) => if i < before.len() {
                after == before.update(i as int, (v, before[i as int].1)) && effect
                    == ChartsEffect::PlotCleared(i)
            } else {
                after == before && effect == ChartsEffect::Nothing
            },
            ChartsMessage::SetYVar(i, j, v) => if i < before.len() && j
                < before[i as int].1.len() {
                &&& after == before.update(
                    i as int,
                    (
                        before[i as int].0,
                        before[i as int].1.update(
                            j as int,
                            SeriesLayout { var: v, color_index: before[i as int].1[j as int].color_index },
                        ),
                    ),
                )
                &&& effect == ChartsEffect::SeriesCleared(i, j)
            } else {
                after == before && effect == ChartsEffect::Nothing
            },
            ChartsMessage::AddYVar(i) => if i < before.len() {
                &&& after == before.update(
                    i as int,
                    (
                        before[i as int].0,
                        before[i as int].1.push(
                            SeriesLayout { var: PlotVariable::Vy, color_index: color },
                        ),
                    ),
                )
                &&& effect == ChartsEffect::SeriesAdded(i)
            } else {
                after == before && effect == ChartsEffect::Nothing
            },
            ChartsMessage::RemoveYVar(i, j) => if i < before.len() && before[i as int].1.len()
                > 1 && j < before[i as int].1.len() {
                &&& after == before.update(
                    i as int,
                    (before[i as int].0, before[i as int].1.remove(j as int)),
                )
                &&& effect == ChartsEffect::SeriesRemoved(i, j)
            } else {
                after == before && effect == ChartsEffect::Nothing
            },
            ChartsMessage::ToggleRecording => {
                &&& after == before
                &&& effect == (if old.recording {
                    ChartsEffect::Nothing
                } else {
                    ChartsEffect::RecordingStarted
                })
            },
            ChartsMessage::ExportCsv => after == before && effect == ChartsEffect::Export,
            ChartsMessage::ExportComplete => after == before && effect
                == ChartsEffect::Nothing,
        }
    })
}

impl ChartsPanel {
    pub open spec fn next_color(&self) -> nat {
        self.next_color_index as nat
    }

    pub open spec fn plots_view(&self) -> Seq<(PlotVariable, Seq<SeriesLayout>)> {
        self.plots@.map_values(|p: PlotLayout| p@)
    }

    /// No plots, not recording, inactive.
    pub fn new() -> (c: Self)
        ensures
            c.plots_view().len() == 0,
            !c.recording,
            !c.active,
            c.next_color() == 0,
    {
        ChartsPanel { plots: Vec::new(), recording: false, active: false, next_color_index: 0 }
    }

    fn take_color(&mut self) -> (color: usize)
        requires
            old(self).next_color() < usize::MAX,
        ensures
            color == old(self).next_color() % (PALETTE_LEN as nat),
            final(self).next_color() == old(self).next_color() + 1,
            final(self).plots == old(self).plots,
            final(self).recording == old(self).recording,
            final(self).active == old(self).active,
    {
        let color = self.next_color_index % PALETTE_LEN;
        self.next_color_index = self.next_color_index + 1;
        color
    }

    /// Handles a panel message and says what happens to the sample buffers.
    ///
    /// * `AddPlot` appends a plot of Vx over Time in the next palette colour;
    /// * `RemovePlot(i)` removes plot `i` if it exists;
    /// * `SetXVar(i, v)` sets the X variable of plot `i` (if it exists) and
    ///   clears its buffers;
    /// * `SetYVar(i, j, v)` sets series `j` of plot `i` (if both exist) and
    ///   clears its buffer;
    /// * `AddYVar(i)` adds a Vy series in the next palette colour to plot `i`;
    /// * `RemoveYVar(i, j)` removes series `j` of plot `i` unless it is the
    ///   plot's only series;
    /// * `ToggleRecording` stops recording (samples are kept for export) or
    ///   starts a new recording;
    /// * `ExportCsv` asks for an export; `ExportComplete` changes nothing.
    pub fn update(&mut self, msg: ChartsMessage) -> (effect: ChartsEffect)
        requires
            old(self).next_color() < usize::MAX,
        ensures
            charts_step(*old(self), *final(self), msg, effect),
    {
        let ghost before = self.plots_view();
        match msg {
            ChartsMessage::AddPlot => {
                let color = self.take_color();
                let mut series = Vec::new();
                series.push(SeriesLayout { var: PlotVariable::Vx, color_index: color });
                self.plots.push(PlotLayout { x_var: PlotVariable::Time, series });
                assert(self.plots_view() =~= before.push(
                    (PlotVariable::Time, seq![SeriesLayout { var: PlotVariable::Vx, color_index: color }]),
                ));
                ChartsEffect::PlotAdded
            },
            ChartsMessage::RemovePlot(i) => {
                if i < self.plots.len() {
                    self.plots.remove(i);
                    assert(self.plots_view() =~= before.remove(i as int));
                    ChartsEffect::PlotRemoved(i)
                } else {
                    ChartsEffect::Nothing
                }
            },
            ChartsMessage::SetXVar(i, v) => {
                if i < self.plots.len() {
                    let mut plot = self.plots.remove(i);
                    plot.x_var = v;
                    self.plots.insert(i, plot);
                    assert(self.plots_view() =~= before.update(i as int, (v, before[i as int].1)));
                    ChartsEffect::PlotCleared(i)
                } else {
                    ChartsEffect::Nothing
                }
            },
            ChartsMessage::SetYVar(i, j, v) => {
                if i < self.plots.len() && j < self.plots[i].series.len() {
                    let mut plot = self.plots.remove(i);
                    let old_series = plot.series[j];
                    plot.series.set(j, SeriesLayout { var: v, color_index: old_series.color_index });
                    self.plots.insert(i, plot);
                    assert(self.plots_view() =~= before.update(
                        i as int,
                        (
                            before[i as int].0,
                            before[i as int].1.update(
                                j as int,
                                SeriesLayout { var: v, color_index: before[i as int].1[j as int].color_index },
                            ),
                        ),
                    ));
                    ChartsEffect::SeriesCleared(i, j)
                } else {
                    ChartsEffect::Nothing
                }
            },
            ChartsMessage::AddYVar(i) => {
                if i < self.plots.len() {
                    let color = self.take_color();
                    let mut plot = self.plots.remove(i);
                    plot.series.push(SeriesLayout { var: PlotVariable::Vy, color_index: color });
                    self.plots.insert(i, plot);
                    assert(self.plots_view() =~= before.update(
                        i as int,
                        (
                            before[i as int].0,
                            before[i as int].1.push(
                                SeriesLayout { var: PlotVariable::Vy, color_index: color },
                            ),
                        ),
                    ));
                    ChartsEffect::SeriesAdded(i)
                } else {
                    ChartsEffect::Nothing
                }
            },
            ChartsMessage::RemoveYVar(i, j) => {
                if i < self.plots.len() && self.plots[i].series.len() > 1 && j
                    < self.plots[i].series.len() {
                    let mut plot = self.plots.remove(i);
                    plot.series.remove(j);
                    self.plots.insert(i, plot);
                    assert(self.plots_view() =~= before.update(
                        i as int,
                        (before[i as int].0, before[i as int].1.remove(j as int)),
                    ));
                    ChartsEffect::SeriesRemoved(i, j)
                } else {
                    ChartsEffect::Nothing
                }
            },
            ChartsMessage::ToggleRecording => {
                if self.recording {
                    self.recording = false;
                    ChartsEffect::Nothing
                } else {
                    self.recording = true;
                    ChartsEffect::RecordingStarted
                }
            },
            ChartsMessage::ExportCsv => ChartsEffect::Export,
            ChartsMessage::ExportComplete => ChartsEffect::Nothing,
        }
    }
}

/// Adding a plot and then removing the last plot leaves the plots as they
/// were (only the palette has moved on).
pub proof fn lemma_add_then_remove_plot(
    a: ChartsPanel,
    b: ChartsPanel,
    c: ChartsPanel,
    n: usize,
    e1: ChartsEffect,
    e2: ChartsEffect,
)
    requires
        n == a.plots@.len(),
        charts_step(a, b, ChartsMessage::AddPlot, e1),
        charts_step(b, c, ChartsMessage::RemovePlot(n), e2),
    ensures
        c.plots_view() == a.plots_view(),
        e2 == ChartsEffect::PlotRemoved(n),
{
    assert(a.plots_view().len() == a.plots@.len());
    assert(b.plots_view().len() == b.plots@.len());
    assert(b.plots_view().remove(a.plots@.len() as int) =~= a.plots_view());
}

impl PlotVariable {
    /// The name the variable is shown under.
    pub fn label(self) -> (s: &'static str)
        ensures
            s@ == match self {
                PlotVariable::Time => "Time"@,
                PlotVariable::X => "X"@,
                PlotVariable::Y => "Y"@,
                PlotVariable::Theta => "θ"@,
                PlotVariable::Vx => "Vx"@,
                PlotVariable::Vy => "Vy"@,
                PlotVariable::CmdVx => "Cmd Vx"@,
                PlotVariable::CmdVy => "Cmd Vy"@,
                PlotVariable::CmdAngular => "Cmd ω"@,
            },
    {
        match self {
            PlotVariable::Time => "Time",
            PlotVariable::X => "X",
            PlotVariable::Y => "Y",
            PlotVariable::Theta => "θ",
            PlotVariable::Vx => "Vx",
            PlotVariable::Vy => "Vy",
            PlotVariable::CmdVx => "Cmd Vx",
            PlotVariable::CmdVy => "Cmd Vy",
            PlotVariable::CmdAngular => "Cmd ω",
        }
    }
}

/// Removing series `j` of plot `i`, when the plot has more than one series,
/// removes exactly that series: the series before it keep their places, the
/// ones after it move up by one, and the other plots do not change.
pub proof fn lemma_remove_series(
    a: ChartsPanel,
    b: ChartsPanel,
    i: usize,
    j: usize,
    e: ChartsEffect,
)
    requires
        charts_step(a, b, ChartsMessage::RemoveYVar(i, j), e),
        i < a.plots@.len(),
        a.plots_view()[i as int].1.len() > 1,
        j < a.plots_view()[i as int].1.len(),
    ensures
        e == ChartsEffect::SeriesRemoved(i, j),
        b.plots_view().len() == a.plots_view().len(),
        b.plots_view()[i as int].0 == a.plots_view()[i as int].0,
        b.plots_view()[i as int].1.len() == a.plots_view()[i as int].1.len() - 1,
        forall|k: int|
            0 <= k < j ==> #[trigger] b.plots_view()[i as int].1[k] == a.plots_view()[i as int].1[k],
        forall|k: int|
            j <= k < b.plots_view()[i as int].1.len() ==> #[trigger] b.plots_view()[i as int].1[k]
                == a.plots_view()[i as int].1[k + 1],
        forall|p: int|
            0 <= p < a.plots_view().len() && p != i ==> #[trigger] b.plots_view()[p]
                == a.plots_view()[p],
{
    assert(a.plots_view().len() == a.plots@.len());
}

} // verus!
