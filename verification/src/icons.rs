//! Pictures of processes: pixels, and what has been looked for already.
use crate::model::{ProcessIcon, ProcessIconState, ProcessSnapshot, SystemSnapshot, SystemView};
use crate::ordered::SortedMap;
use crate::text;
use std::sync::Arc;
use vstd::prelude::*;

verus! {

/// The width and the height of a picture.
pub const ICON_SIZE: u32 = 32;

/// The bytes of a picture.
pub const PIXEL_BUFFER_LEN: usize = 4096;

/// A picture that the system drew.
#[derive(Debug, PartialEq, Eq)]
pub struct NativeIcon {
    pub width: u32,
    pub height: u32,
    pub rgba: Vec<u8>,
}

/// Whether any pixel says how opaque it is.
pub open spec fn has_alpha(bgra: Seq<u8>) -> bool {
    exists|p: int| 0 <= p < bgra.len() / 4 && #[trigger] bgra[4 * p + 3] != 0
}

/// A byte of a pixel's place among the red, green, blue and opacity of the pixel.
pub open spec fn rgba_byte(bgra: Seq<u8>, at: int) -> u8 {
    if at % 4 == 0 {
        bgra[at + 2]
    } else if at % 4 == 1 {
        bgra[at]
    } else if at % 4 == 2 {
        bgra[at - 2]
    } else if has_alpha(bgra) {
        bgra[at]
    } else {
        255
    }
}

/// Pixels of blue, green, red and opacity as pixels of red, green, blue and opacity. Where no pixel
/// says how opaque it is, all are fully so. Bytes behind the last whole pixel are left out.
pub fn rgba_pixels(bgra: &[u8]) -> (rgba: Vec<u8>)
    ensures
        rgba@ == Seq::new((bgra@.len() / 4 * 4) as nat, |at: int| rgba_byte(bgra@, at)),
{
    let pixels: usize = bgra.len() / 4;
    let mut alpha = false;
    let mut p: usize = 0;
    while p < pixels
        invariant
            p <= pixels,
            pixels == bgra@.len() / 4,
            bgra@.len() <= usize::MAX,
            alpha == (exists|q: int| 0 <= q < p && #[trigger] bgra@[4 * q + 3] != 0),
        decreases pixels - p,
    {
        if bgra[4 * p + 3] != 0 {
            alpha = true;
            assert(bgra@[4 * (p as int) + 3] != 0);
        }
        p += 1;
    }
    assert(alpha == has_alpha(bgra@));
    let mut rgba: Vec<u8> = Vec::new();
    let mut p: usize = 0;
    while p < pixels
        invariant
            p <= pixels,
            pixels == bgra@.len() / 4,
            bgra@.len() <= usize::MAX,
            alpha == has_alpha(bgra@),
            rgba@.len() == 4 * p,
            forall|at: int| 0 <= at < 4 * p ==> #[trigger] rgba@[at] == rgba_byte(bgra@, at),
        decreases pixels - p,
    {
        rgba.push(bgra[4 * p + 2]);
        rgba.push(bgra[4 * p + 1]);
        rgba.push(bgra[4 * p]);
        rgba.push(
            if alpha {
                bgra[4 * p + 3]
            } else {
                255
            },
        );
        p += 1;
    }
    assert(rgba@ =~= Seq::new((bgra@.len() / 4 * 4) as nat, |at: int| rgba_byte(bgra@, at)));
    rgba
}

/// Swapping red and blue twice gives the pixels back, where some pixel says how opaque it is.
pub proof fn law_pixels_are_swapped_back(bgra: Seq<u8>)
    requires
        bgra.len() % 4 == 0,
        has_alpha(bgra),
    ensures
        ({
            let rgba = Seq::new(bgra.len(), |at: int| rgba_byte(bgra, at));
            Seq::new(bgra.len(), |at: int| rgba_byte(rgba, at)) == bgra
        }),
{
    let rgba = Seq::new(bgra.len(), |at: int| rgba_byte(bgra, at));
    let p = choose|p: int| 0 <= p < bgra.len() / 4 && #[trigger] bgra[4 * p + 3] != 0;
    assert(rgba[4 * p + 3] == bgra[4 * p + 3]);
    assert(has_alpha(rgba));
    assert(Seq::new(bgra.len(), |at: int| rgba_byte(rgba, at)) =~= bgra);
}

/// The picture that a drawn buffer holds.
pub fn drawn_icon(bgra: &[u8]) -> (icon: NativeIcon)
    ensures
        icon.width == ICON_SIZE,
        icon.height == ICON_SIZE,
        icon.rgba@ == Seq::new((bgra@.len() / 4 * 4) as nat, |at: int| rgba_byte(bgra@, at)),
{
    NativeIcon { width: ICON_SIZE, height: ICON_SIZE, rgba: rgba_pixels(bgra) }
}

/// What looking for a picture came to: a failed search and one that found none are the same.
pub fn icon_state(found: Result<Option<NativeIcon>, String>) -> (state: ProcessIconState)
    ensures
        match (found, state) {
            (Ok(Some(icon)), ProcessIconState::Available(shown)) => shown.width == icon.width
                && shown.height == icon.height && shown.rgba@ == icon.rgba@,
            (Ok(Some(_)), _) => false,
            (_, state) => state == ProcessIconState::Unavailable,
        },
{
    match found {
        Ok(Some(icon)) => ProcessIconState::Available(
            ProcessIcon { width: icon.width, height: icon.height, rgba: Arc::new(icon.rgba) },
        ),
        _ => ProcessIconState::Unavailable,
    }
}

/// The paths of programs whose pictures are to be looked for next: those not looked for yet, in the
/// order of the processes, each once, and no more than `maximum`.
pub open spec fn paths_wanted(
    processes: Seq<ProcessSnapshot>,
    known: Map<Seq<char>, ProcessIconState>,
    maximum: nat,
) -> Seq<Seq<char>>
    decreases processes.len(),
{
    if processes.len() == 0 {
        Seq::empty()
    } else {
        let earlier = paths_wanted(processes.drop_last(), known, maximum);
        match text::optional(processes.last().image_path) {
            Some(path) => if known.dom().contains(path) || earlier.contains(path) || earlier.len()
                >= maximum {
                earlier
            } else {
                earlier.push(path)
            },
            None => earlier,
        }
    }
}

/// What is known of pictures once some were looked for.
pub open spec fn known_with(
    known: Map<Seq<char>, ProcessIconState>,
    loaded: Seq<(String, ProcessIconState)>,
) -> Map<Seq<char>, ProcessIconState>
    decreases loaded.len(),
{
    if loaded.len() == 0 {
        known
    } else {
        known_with(known, loaded.drop_last()).insert(loaded.last().0@, loaded.last().1)
    }
}

/// A process with the picture that is known of it.
pub open spec fn with_known_icon(
    process: ProcessSnapshot,
    known: Map<Seq<char>, ProcessIconState>,
) -> ProcessSnapshot {
    match text::optional(process.image_path) {
        Some(path) => if known.dom().contains(path) {
            ProcessSnapshot { icon: known[path], ..process }
        } else {
            process
        },
        None => ProcessSnapshot { icon: ProcessIconState::Unavailable, ..process },
    }
}

/// What is known of the pictures of programs, by their paths.
#[derive(Debug)]
pub struct ProcessIconCache {
    by_path: SortedMap<String, ProcessIconState>,
}

impl View for ProcessIconCache {
    type V = Map<Seq<char>, ProcessIconState>;

    closed spec fn view(&self) -> Map<Seq<char>, ProcessIconState> {
        self.by_path@
    }
}

impl Default for ProcessIconCache {
    fn default() -> (cache: ProcessIconCache)
        ensures
            cache.well_formed(),
            cache@ == Map::<Seq<char>, ProcessIconState>::empty(),
    {
        ProcessIconCache { by_path: SortedMap::new() }
    }
}

fn holds(paths: &Vec<String>, path: &str) -> (r: bool)
    ensures
        r == text::texts(paths@).contains(path@),
{
    for i in 0..paths.len()
        invariant
            forall|j: int| 0 <= j < i ==> (#[trigger] paths@[j])@ != path@,
    {
        if text::equal(paths[i].as_str(), path) {
            assert(text::texts(paths@)[i as int] == path@);
            return true;
        }
    }
    assert forall|j: int| 0 <= j < paths@.len() implies #[trigger] text::texts(paths@)[j]
        != path@ by {
        assert(paths@[j]@ != path@);
    }
    false
}

impl ProcessIconCache {
    /// The paths stand in order.
    pub closed spec fn well_formed(&self) -> bool {
        self.by_path.well_formed()
    }

    /// The paths of programs whose pictures are to be looked for next, `maximum_new` at most.
    pub fn wanted(&self, snapshot: &SystemSnapshot, maximum_new: usize) -> (paths: Vec<String>)
        requires
            self.well_formed(),
        ensures
            text::texts(paths@) == paths_wanted(snapshot@.processes, self@, maximum_new as nat),
    {
        let mut paths: Vec<String> = Vec::new();
        let ghost all = snapshot.processes@;
        assert(all.take(0) =~= Seq::<ProcessSnapshot>::empty());
        assert(text::texts(paths@) =~= Seq::<Seq<char>>::empty());
        for i in 0..snapshot.processes.len()
            invariant
                all == snapshot.processes@,
                self.well_formed(),
                text::texts(paths@) == paths_wanted(all.take(i as int), self@, maximum_new as nat),
        {
            assert(all.take(i + 1).drop_last() =~= all.take(i as int));
            if let Some(path) = &snapshot.processes[i].image_path {
                let known = self.by_path.contains(path);
                let listed = holds(&paths, path.as_str());
                if !known && !listed && paths.len() < maximum_new {
                    let ghost before = paths@;
                    paths.push(path.clone());
                    assert(text::texts(paths@) =~= text::texts(before).push(path@));
                }
            }
        }
        assert(all.take(all.len() as int) =~= all);
        paths
    }

    /// Remembers what was found, and puts what is known on every process of a snapshot. A process
    /// whose path has not been looked for keeps the picture it has.
    pub fn enrich(
        &mut self,
        snapshot: &mut SystemSnapshot,
        loaded: Vec<(String, ProcessIconState)>,
    )
        requires
            old(self).well_formed(),
        ensures
            final(self).well_formed(),
            final(self)@ == known_with(old(self)@, loaded@),
            final(snapshot)@ == (SystemView {
                processes: old(snapshot)@.processes.map_values(
                    |process: ProcessSnapshot| with_known_icon(process, final(self)@),
                ),
                ..old(snapshot)@
            }),
    {
        let ghost known = self@;
        assert(loaded@.take(0) =~= Seq::<(String, ProcessIconState)>::empty());
        for i in 0..loaded.len()
            invariant
                self.well_formed(),
                self@ == known_with(known, loaded@.take(i as int)),
        {
            assert(loaded@.take(i + 1).drop_last() =~= loaded@.take(i as int));
            self.by_path.insert(loaded[i].0.clone(), loaded[i].1.clone());
        }
        assert(loaded@.take(loaded@.len() as int) =~= loaded@);
        let ghost before = snapshot@;
        let n: usize = snapshot.processes.len();
        let mut i: usize = 0;
        while i < n
            invariant
                self.well_formed(),
                i <= n,
                n == before.processes.len(),
                snapshot@ == (SystemView { processes: snapshot@.processes, ..before }),
                snapshot@.processes.len() == n,
                forall|j: int|
                    0 <= j < i ==> #[trigger] snapshot@.processes[j] == with_known_icon(
                        before.processes[j],
                        self@,
                    ),
                forall|j: int|
                    i <= j < n ==> #[trigger] snapshot@.processes[j] == before.processes[j],
            decreases n - i,
        {
            assert(snapshot@.processes[i as int] == before.processes[i as int]);
            let icon = match &snapshot.processes[i].image_path {
                Some(path) => match self.by_path.get(path) {
                    Some(icon) => Some(icon.clone()),
                    None => None,
                },
                None => Some(ProcessIconState::Unavailable),
            };
            if let Some(icon) = icon {
                snapshot.processes[i].icon = icon;
            }
            i += 1;
        }
        assert(snapshot@.processes =~= before.processes.map_values(
            |process: ProcessSnapshot| with_known_icon(process, self@),
        ));
    }
}

/// No more pictures are looked for than allowed, and none that is known already or asked for twice.
pub proof fn law_pictures_are_looked_for_once(
    processes: Seq<ProcessSnapshot>,
    known: Map<Seq<char>, ProcessIconState>,
    maximum: nat,
)
    ensures
        paths_wanted(processes, known, maximum).len() <= maximum,
        paths_wanted(processes, known, maximum).no_duplicates(),
        forall|i: int|
            0 <= i < paths_wanted(processes, known, maximum).len() ==> !known.dom().contains(
                #[trigger] paths_wanted(processes, known, maximum)[i],
            ),
    decreases processes.len(),
{
    if processes.len() > 0 {
        law_pictures_are_looked_for_once(processes.drop_last(), known, maximum);
    }
}

/// The colours of a pixel change from blue, green, red to red, green, blue; how opaque it is stays,
/// but a picture that is nowhere opaque becomes opaque everywhere.
pub proof fn law_colours_of_pixels(bgra: Seq<u8>, pixel: int)
    requires
        0 <= pixel < bgra.len() / 4,
    ensures
        rgba_byte(bgra, 4 * pixel) == bgra[4 * pixel + 2],
        rgba_byte(bgra, 4 * pixel + 1) == bgra[4 * pixel + 1],
        rgba_byte(bgra, 4 * pixel + 2) == bgra[4 * pixel],
        bgra[4 * pixel + 3] != 0 ==> rgba_byte(bgra, 4 * pixel + 3) == bgra[4 * pixel + 3],
        (forall|p: int| 0 <= p < bgra.len() / 4 ==> #[trigger] bgra[4 * p + 3] == 0) ==> rgba_byte(
            bgra,
            4 * pixel + 3,
        ) == 255,
{
}

/// A process has the picture that is known for its image; one without an image has none.
pub proof fn law_pictures_go_by_image(
    process: ProcessSnapshot,
    known: Map<Seq<char>, ProcessIconState>,
)
    ensures
        process.image_path is None ==> with_known_icon(process, known).icon
            == ProcessIconState::Unavailable,
        process.image_path matches Some(path) && known.dom().contains(path@) ==> with_known_icon(
            process,
            known,
        ).icon == known[process.image_path->0@],
        process.image_path matches Some(path) && !known.dom().contains(path@) ==> with_known_icon(
            process,
            known,
        ) == process,
        with_known_icon(process, known).key == process.key,
        with_known_icon(process, known).name == process.name,
{
}

/// The image of the last process is looked for where it is not known, not asked for yet, and there
/// is room.
pub proof fn law_unknown_images_are_asked_for(
    processes: Seq<ProcessSnapshot>,
    more: ProcessSnapshot,
    known: Map<Seq<char>, ProcessIconState>,
    maximum: nat,
    path: Seq<char>,
)
    requires
        text::optional(more.image_path) == Some(path),
        !known.dom().contains(path),
        paths_wanted(processes, known, maximum).len() < maximum,
    ensures
        paths_wanted(processes.push(more), known, maximum).contains(path),
{
    assert(processes.push(more).drop_last() =~= processes);
    let earlier = paths_wanted(processes, known, maximum);
    if !earlier.contains(path) {
        assert(earlier.push(path)[earlier.len() as int] == path);
    }
}

} // verus!
