//! The progress board: what the progress bars of a run show, event by
//! event. Whoever draws the bars reads the board after each event.

use vstd::prelude::*;
use vstd::string::StringExecFns;
use crate::hunk::envelope_hunk_text;
use crate::names::texts;
use crate::progress::{sizes_view, ProgressEvent, ProgressEventView};
use crate::text::{decimal, decimal_text};

verus! {

/// One progress bar.
#[derive(Debug)]
pub struct Bar {
    pub length: u64,
    pub position: u64,
    pub message: String,
    /// Whether the bar shows as done.
    pub done: bool,
}

/// A progress bar as contracts see it.
pub struct BarView {
    pub length: u64,
    pub position: u64,
    pub message: Seq<char>,
    pub done: bool,
}

impl View for Bar {
    type V = BarView;

    open spec fn view(&self) -> BarView {
        BarView {
            length: self.length,
            position: self.position,
            message: self.message@,
            done: self.done,
        }
    }
}

/// The progress bar of one folder.
#[derive(Debug)]
pub struct FolderBar {
    pub folder: String,
    pub bar: Bar,
}

/// The progress bar of one folder as contracts see it.
pub struct FolderBarView {
    pub folder: Seq<char>,
    pub bar: BarView,
}

impl View for FolderBar {
    type V = FolderBarView;

    open spec fn view(&self) -> FolderBarView {
        FolderBarView { folder: self.folder@, bar: self.bar@ }
    }
}

/// The bars of the folders as contracts see them.
pub open spec fn bars_view(bars: Seq<FolderBar>) -> Seq<FolderBarView> {
    bars.map_values(|b: FolderBar| b@)
}

/// The board as contracts see it.
pub struct BoardView {
    pub main: BarView,
    pub folders: Seq<FolderBarView>,
}

/// The largest position and length that a bar can show.
pub open spec fn bar_limit() -> int {
    u64::MAX as int
}

/// A number, or the largest that a bar can show where it is beyond that.
pub open spec fn capped(n: int) -> u64 {
    if n > bar_limit() {
        u64::MAX
    } else {
        n as u64
    }
}

/// The bar moved on by `delta`, as far as a bar can show.
pub open spec fn advanced(bar: BarView, delta: u64) -> BarView {
    BarView { position: capped(bar.position + delta), ..bar }
}

/// The first place that holds the bar of `folder`, or the number of bars
/// where none does.
pub open spec fn bar_place(bars: Seq<FolderBarView>, folder: Seq<char>) -> int
    decreases bars.len(),
{
    if bars.len() == 0 {
        0
    } else if bars.first().folder == folder {
        0
    } else {
        1 + bar_place(bars.drop_first(), folder)
    }
}

/// The bars with a fresh bar of `length` for `folder`: in the place of the
/// bar that the folder has, else at the end.
pub open spec fn with_fresh_bar(bars: Seq<FolderBarView>, folder: Seq<char>, length: u64) -> Seq<
    FolderBarView,
> {
    let fresh = FolderBarView {
        folder,
        bar: BarView { length, position: 0, message: Seq::empty(), done: false },
    };
    let at = bar_place(bars, folder);
    if at < bars.len() {
        bars.update(at, fresh)
    } else {
        bars.push(fresh)
    }
}

/// The bars with a fresh bar for each folder of `sizes`, as long as the
/// number of its hunks.
pub open spec fn with_fresh_bars(bars: Seq<FolderBarView>, sizes: Seq<(Seq<char>, nat)>) -> Seq<
    FolderBarView,
>
    decreases sizes.len(),
{
    if sizes.len() == 0 {
        bars
    } else {
        with_fresh_bar(
            with_fresh_bars(bars, sizes.drop_last()),
            sizes.last().0,
            capped(sizes.last().1 as int),
        )
    }
}

/// The number of hunks of all folders.
pub open spec fn total_size(sizes: Seq<(Seq<char>, nat)>) -> nat
    decreases sizes.len(),
{
    if sizes.len() == 0 {
        0
    } else {
        total_size(sizes.drop_last()) + sizes.last().1
    }
}

/// The bar of a folder after one more of its hunks: moved on by one, and
/// shown as done when one step is left, else with the hunk in words.
pub open spec fn after_hunk(bar: BarView, hunk_text: Seq<char>) -> BarView {
    let moved = advanced(bar, 1);
    if moved.position + 1 == moved.length {
        BarView { done: true, ..moved }
    } else {
        BarView { message: hunk_text + "…"@, ..moved }
    }
}

impl BoardView {
    /// The board of a run that begins.
    pub open spec fn start() -> BoardView {
        BoardView {
            main: BarView {
                length: 100,
                position: 0,
                message: "Synchronizing folders…"@,
                done: false,
            },
            folders: Seq::empty(),
        }
    }

    /// The board after `event`.
    pub open spec fn after(self, event: ProgressEventView) -> BoardView {
        match event {
            ProgressEventView::BeginFolderPatch => BoardView {
                main: advanced(self.main, 3),
                ..self
            },
            ProgressEventView::BeginEnvelopePatch(sizes) => BoardView {
                main: BarView {
                    length: scaled(110, total_size(sizes)),
                    position: scaled(5, total_size(sizes)),
                    message: "Synchronizing envelopes…"@,
                    ..self.main
                },
                folders: with_fresh_bars(self.folders, sizes),
            },
            ProgressEventView::EnvelopeHunk(hunk) => {
                let at = bar_place(self.folders, hunk.folder);
                BoardView {
                    main: advanced(self.main, 1),
                    folders: if at < self.folders.len() {
                        self.folders.update(
                            at,
                            FolderBarView {
                                folder: self.folders[at].folder,
                                bar: after_hunk(self.folders[at].bar, envelope_hunk_text(hunk)),
                            },
                        )
                    } else {
                        self.folders
                    },
                }
            },
            ProgressEventView::BeginCachePatch => BoardView {
                main: BarView {
                    length: 100,
                    position: 95,
                    message: "Saving cache database…"@,
                    ..self.main
                },
                ..self
            },
            ProgressEventView::FoldersExpunged(folders) => BoardView {
                main: BarView {
                    position: 100,
                    message: "Expunging "@ + decimal(folders.len()) + " folders…"@,
                    ..self.main
                },
                folders: Seq::empty(),
            },
        }
    }
}

/// What the progress bars of a run show.
#[derive(Debug)]
pub struct Board {
    /// The bar of the whole run.
    pub main: Bar,
    /// The bars of the folders whose envelopes are synchronized.
    pub folders: Vec<FolderBar>,
}

impl View for Board {
    type V = BoardView;

    open spec fn view(&self) -> BoardView {
        BoardView { main: self.main@, folders: bars_view(self.folders@) }
    }
}

/// Where the bar of `folder` stands among `bars`, if it has one.
fn find_bar(bars: &Vec<FolderBar>, folder: &String) -> (at: usize)
    ensures
        at == bar_place(bars_view(bars@), folder@),
        at <= bars@.len(),
{
    let ghost all = bars_view(bars@);
    let mut i: usize = 0;
    proof {
        assert(all.skip(0) =~= all);
    }
    while i < bars.len()
        invariant
            i <= bars.len(),
            all == bars_view(bars@),
            bar_place(all, folder@) == i + bar_place(all.skip(i as int), folder@),
        decreases bars.len() - i,
    {
        proof {
            assert(all.skip(i as int).first() == all[i as int]);
            assert(all.skip(i as int).drop_first() =~= all.skip(i + 1));
        }
        if bars[i].folder == *folder {
            return i;
        }
        i += 1;
    }
    proof {
        assert(all.skip(i as int).len() == 0);
    }
    i
}

/// A number of hunks as a bar shows it.
fn cap(n: u128) -> (shown: u64)
    ensures
        shown == capped(n as int),
{
    if n > u64::MAX as u128 {
        u64::MAX
    } else {
        n as u64
    }
}

/// A share of a number of hunks, in hundredths, as a bar shows it.
pub open spec fn scaled(percent: nat, total: nat) -> u64 {
    capped((percent * total / 100) as int)
}

/// Takes `percent` hundredths of `total`.
fn scale(percent: u128, total: u128) -> (shown: u64)
    requires
        1 <= percent <= 110,
    ensures
        shown == scaled(percent as nat, total as nat),
{
    if total > u128::MAX / 110 {
        proof {
            assert(percent * total >= total) by (nonlinear_arith)
                requires
                    percent >= 1,
                    total >= 0,
            ;
        }
        u64::MAX
    } else {
        proof {
            assert(percent * total <= 110 * total) by (nonlinear_arith)
                requires
                    percent <= 110,
                    total >= 0,
            ;
        }
        cap(percent * total / 100)
    }
}

impl Bar {
    /// Moves the bar on by `delta`, as far as a bar can show.
    pub fn advance(&mut self, delta: u64)
        ensures
            final(self)@ == advanced(old(self)@, delta),
    {
        self.position = self.position.saturating_add(delta);
    }
}

impl Board {
    /// The board of a run that begins.
    pub fn new() -> (board: Board)
        ensures
            board@ == BoardView::start(),
    {
        let board = Board {
            main: Bar {
                length: 100,
                position: 0,
                message: String::from_str("Synchronizing folders…"),
                done: false,
            },
            folders: Vec::new(),
        };
        proof {
            assert(bars_view(board.folders@) =~= Seq::empty());
        }
        board
    }

    /// Gives each folder of `sizes` a fresh bar.
    fn add_bars(&mut self, sizes: &Vec<(String, usize)>) -> (total: u128)
        ensures
            final(self)@.main == old(self)@.main,
            final(self)@.folders == with_fresh_bars(old(self)@.folders, sizes_view(sizes@)),
            total == total_size(sizes_view(sizes@)),
    {
        let ghost start = self@.folders;
        let ghost all = sizes_view(sizes@);
        let mut total: u128 = 0;
        let mut i: usize = 0;
        while i < sizes.len()
            invariant
                i <= sizes.len(),
                all == sizes_view(sizes@),
                self@.main == old(self)@.main,
                self@.folders == with_fresh_bars(start, all.take(i as int)),
                total == total_size(all.take(i as int)),
                total <= i * usize::MAX,
            decreases sizes.len() - i,
        {
            let ghost before = self@.folders;
            proof {
                assert(all.take(i + 1).drop_last() =~= all.take(i as int));
                assert(all.take(i + 1).last() == all[i as int]);
                assert(i * usize::MAX + usize::MAX == (i + 1) * usize::MAX) by (nonlinear_arith);
                assert((i + 1) * usize::MAX <= usize::MAX * usize::MAX) by (nonlinear_arith)
                    requires
                        i + 1 <= usize::MAX,
                ;
            }
            let size = sizes[i].1;
            total = total + size as u128;
            let fresh = FolderBar {
                folder: sizes[i].0.clone(),
                bar: Bar {
                    length: cap(size as u128),
                    position: 0,
                    message: String::new(),
                    done: false,
                },
            };
            let at = find_bar(&self.folders, &sizes[i].0);
            if at < self.folders.len() {
                self.folders.set(at, fresh);
                proof {
                    assert(bars_view(self.folders@) =~= before.update(at as int, fresh@));
                }
            } else {
                self.folders.push(fresh);
                proof {
                    assert(bars_view(self.folders@) =~= before.push(fresh@));
                }
            }
            i += 1;
        }
        proof {
            assert(all.take(i as int) =~= all);
        }
        total
    }

    /// Brings the board up to date with `event`.
    pub fn handle(&mut self, event: &ProgressEvent)
        ensures
            final(self)@ == old(self)@.after(event@),
    {
        match event {
            ProgressEvent::BeginFolderPatch => {
                self.main.advance(3);
            },
            ProgressEvent::BeginEnvelopePatch(sizes) => {
                let total = self.add_bars(sizes);
                self.main.length = scale(110, total);
                self.main.position = scale(5, total);
                self.main.message = String::from_str("Synchronizing envelopes…");
            },
            ProgressEvent::EnvelopeHunk(hunk) => {
                self.main.advance(1);
                let at = find_bar(&self.folders, &hunk.folder);
                if at < self.folders.len() {
                    let ghost before = bars_view(self.folders@);
                    let mut bar = Bar {
                        length: self.folders[at].bar.length,
                        position: self.folders[at].bar.position,
                        message: self.folders[at].bar.message.clone(),
                        done: self.folders[at].bar.done,
                    };
                    bar.advance(1);
                    if bar.length > 0 && bar.position == bar.length - 1 {
                        bar.done = true;
                    } else {
                        let mut message = hunk.describe();
                        message.append("…");
                        bar.message = message;
                    }
                    let folder = self.folders[at].folder.clone();
                    let changed = FolderBar { folder, bar };
                    self.folders.set(at, changed);
                    proof {
                        assert(bars_view(self.folders@) =~= before.update(at as int, changed@));
                    }
                }
            },
            ProgressEvent::BeginCachePatch => {
                self.main.length = 100;
                self.main.position = 95;
                self.main.message = String::from_str("Saving cache database…");
            },
            ProgressEvent::FoldersExpunged(folders) => {
                self.folders = Vec::new();
                self.main.position = 100;
                let mut message = String::from_str("Expunging ");
                message.append(decimal_text(folders.len() as u128).as_str());
                message.append(" folders…");
                self.main.message = message;
                proof {
                    assert(bars_view(self.folders@) =~= Seq::empty());
                    assert(texts(folders@).len() == folders@.len());
                }
            },
        }
    }
}

} // verus!
