//! Tray icons loaded from PNG files: which files to try for a state, what a file's
//! contents give, and the message given when none can be used.
use vstd::prelude::*;
use vstd::string::StringExecFns;

verus! {

/// A decoded picture: 8-bit RGBA samples, row by row, with its size in pixels.
pub struct RgbaImage {
    pub rgba: Vec<u8>,
    pub width: u32,
    pub height: u32,
}

/// Whether a picture's sample buffer covers all of its pixels: four bytes for
/// each of its `width · height` pixels, perhaps followed by more.
pub open spec fn covers_pixels(img: RgbaImage) -> bool {
    img.rgba@.len() >= 4 * img.width * img.height
}

/// `image::load_from_memory` (format guessed from the leading bytes; this crate
/// enables the PNG decoder only), then `DynamicImage::to_rgba8`,
/// `ImageBuffer::dimensions` and `ImageBuffer::into_raw`: the picture as 8-bit
/// RGBA samples, or `None` where the bytes do not decode. Which outcome comes is
/// not claimed: the image crate lets any code in the process register extra
/// format detection and decoding hooks, so the same bytes need not decode the
/// same way twice. Claimed of every picture: its buffer covers its pixels, since
/// every `ImageBuffer` is built through `ImageBuffer::new`, which allocates
/// `4 · width · height` bytes for RGBA, or `ImageBuffer::from_raw`/`from_vec`,
/// which refuse a shorter buffer, and `into_raw` hands that buffer out unchanged.
#[verifier::external_body]
fn decode_rgba8(bytes: &[u8]) -> (r: Option<RgbaImage>)
    ensures
        r matches Some(img) ==> covers_pixels(img),
{
    match image::load_from_memory(bytes) {
        Ok(img) => {
            let rgba = img.to_rgba8();
            let (width, height) = rgba.dimensions();
            Some(RgbaImage { rgba: rgba.into_raw(), width, height })
        },
        Err(_) => None,
    }
}

/// The picture in an icon file, given its contents (`None`: the file could not
/// be read): a file that could not be read gives no picture; otherwise the
/// contents are decoded, and a decoded picture's buffer covers its pixels.
pub fn load_tray_icon_from_png(contents: Option<Vec<u8>>) -> (img: Option<RgbaImage>)
    ensures
        contents is None ==> img is None,
        img matches Some(i) ==> covers_pixels(i),
{
    match contents {
        Some(bytes) => decode_rgba8(bytes.as_slice()),
        None => None,
    }
}

/// The next move of the search for a usable icon among `count` candidate files,
/// tried in order.
#[derive(Debug, Clone, Copy, PartialEq, Eq, Structural)]
pub enum IconSearchStep {
    /// Try the candidate at this position.
    Try(usize),
    /// The candidate at this position gave a usable icon: use it.
    Found(usize),
    /// No candidate gave a usable icon.
    GiveUp,
}

/// The first move of a search among `count` candidates.
pub fn begin_icon_search(count: usize) -> (step: IconSearchStep)
    ensures
        step == (if count > 0 {
            IconSearchStep::Try(0)
        } else {
            IconSearchStep::GiveUp
        }),
{
    if count > 0 {
        IconSearchStep::Try(0)
    } else {
        IconSearchStep::GiveUp
    }
}

/// The move after trying candidate `index` of `count`, given whether it gave a
/// usable icon: stop at a usable one, else try the next, else give up.
pub open spec fn after_attempt_spec(index: int, count: int, usable: bool) -> IconSearchStep {
    if usable {
        IconSearchStep::Found(index as usize)
    } else if index + 1 < count {
        IconSearchStep::Try((index + 1) as usize)
    } else {
        IconSearchStep::GiveUp
    }
}

/// The move after trying candidate `index` of `count`, given whether it gave a
/// usable icon.
pub fn icon_search_after_attempt(index: usize, count: usize, usable: bool) -> (step: IconSearchStep)
    requires
        index < count,
    ensures
        step == after_attempt_spec(index as int, count as int, usable),
        usable ==> step == IconSearchStep::Found(index),
        !usable && index + 1 < count ==> step == IconSearchStep::Try((index + 1) as usize),
        !usable && index + 1 >= count ==> step == IconSearchStep::GiveUp,
{
    if usable {
        IconSearchStep::Found(index)
    } else if index + 1 < count {
        IconSearchStep::Try(index + 1)
    } else {
        IconSearchStep::GiveUp
    }
}

/// Where a search that tries candidate `index` ends, given which candidates
/// give a usable icon: the first usable one at or after it.
pub open spec fn search_outcome(usable: Seq<bool>, index: int) -> IconSearchStep
    decreases usable.len() - index,
{
    if index < 0 || index >= usable.len() {
        IconSearchStep::GiveUp
    } else if usable[index] {
        IconSearchStep::Found(index as usize)
    } else {
        search_outcome(usable, index + 1)
    }
}

/// The search stops on the candidate just tried when it is usable, and otherwise
/// always moves on: the next candidate it tries is the one right after, and it
/// gives up only after the last.
pub proof fn lemma_attempt_progresses(index: int, count: int, usable: bool)
    requires
        0 <= index < count <= usize::MAX,
    ensures
        usable ==> after_attempt_spec(index, count, usable) == IconSearchStep::Found(index as usize),
        after_attempt_spec(index, count, usable) matches IconSearchStep::Try(next) ==> next == index
            + 1 && !usable,
        after_attempt_spec(index, count, usable) is GiveUp ==> !usable && index + 1 == count,
        !usable && index + 1 < count ==> after_attempt_spec(index, count, usable) is Try,
{
}

/// A search that tries candidate `index` ends where the move after that attempt
/// leads: the moves that `icon_search_after_attempt` gives drive the search to
/// `search_outcome`.
pub proof fn lemma_attempt_leads_to_outcome(usable: Seq<bool>, index: int)
    requires
        0 <= index < usable.len(),
        usable.len() <= usize::MAX,
    ensures
        search_outcome(usable, index) == (match after_attempt_spec(
            index,
            usable.len() as int,
            usable[index],
        ) {
            IconSearchStep::Try(next) => search_outcome(usable, next as int),
            other => other,
        }),
{
    assert((index as usize) as int == index);
    if index + 1 < usable.len() {
        assert(((index + 1) as usize) as int == index + 1);
    } else {
        assert(search_outcome(usable, index + 1) == IconSearchStep::GiveUp);
    }
}

/// The search uses the first usable candidate: a search from candidate `index`
/// ends at the first usable candidate at or after it, and gives up exactly when
/// none of them is usable.
pub proof fn lemma_search_finds_first_usable(usable: Seq<bool>, index: int)
    requires
        0 <= index,
        usable.len() <= usize::MAX,
    ensures
        search_outcome(usable, index) matches IconSearchStep::Found(i) ==> {
            &&& index <= i < usable.len()
            &&& usable[i as int]
            &&& forall|j: int| index <= j < i ==> !usable[j]
        },
        search_outcome(usable, index) is GiveUp <==> forall|j: int|
            index <= j < usable.len() ==> !usable[j],
        !(search_outcome(usable, index) is Try),
    decreases usable.len() - index,
{
    if index < usable.len() {
        assert((index as usize) as int == index);
        if !usable[index] {
            lemma_search_finds_first_usable(usable, index + 1);
        }
    }
}

/// The word that names a state in messages.
pub fn state_label(running: bool) -> (label: &'static str)
    ensures
        running ==> label@ == "running"@,
        !running ==> label@ == "stopped"@,
{
    if running {
        "running"
    } else {
        "stopped"
    }
}

/// The icon files for a state, in the order they are tried: the double-resolution
/// picture first.
pub fn icon_paths(running: bool) -> (paths: Vec<&'static str>)
    ensures
        paths.len() == 2,
        running ==> paths[0]@ == "assets/icon-running@2x.png"@ && paths[1]@
            == "assets/icon-running.png"@,
        !running ==> paths[0]@ == "assets/icon-stopped@2x.png"@ && paths[1]@
            == "assets/icon-stopped.png"@,
{
    if running {
        vec!["assets/icon-running@2x.png", "assets/icon-running.png"]
    } else {
        vec!["assets/icon-stopped@2x.png", "assets/icon-stopped.png"]
    }
}

/// The text of a list joined with a separator between neighbours.
pub open spec fn joined(items: Seq<Seq<char>>, sep: Seq<char>) -> Seq<char>
    decreases items.len(),
{
    if items.len() == 0 {
        Seq::empty()
    } else if items.len() == 1 {
        items[0]
    } else {
        joined(items.drop_last(), sep) + sep + items.last()
    }
}

/// The message given when no icon file for a state can be used.
pub open spec fn missing_icon_text(label: Seq<char>, paths: Seq<Seq<char>>) -> Seq<char> {
    "Missing or invalid "@ + label + " tray icon. Expected one of: "@ + joined(paths, ", "@)
}

/// The views of a list of string slices.
pub open spec fn str_views(paths: Seq<&str>) -> Seq<Seq<char>> {
    paths.map_values(|p: &str| p@)
}

/// The message given when no icon file for a state can be used: it names the
/// state and lists the paths that were tried, comma-separated.
pub fn missing_icon_message(label: &str, paths: &Vec<&str>) -> (msg: String)
    ensures
        msg@ == missing_icon_text(label@, str_views(paths@)),
{
    let mut list = String::new();
    let ghost views = str_views(paths@);
    let mut i: usize = 0;
    while i < paths.len()
        invariant
            i <= paths.len(),
            views == str_views(paths@),
            list@ == joined(views.take(i as int), ", "@),
        decreases paths.len() - i,
    {
        let ghost before = list@;
        if i != 0 {
            list.append(", ");
        }
        list.append(paths[i]);
        proof {
            assert(views.take(i + 1).drop_last() =~= views.take(i as int));
            if i == 0 {
                assert(before =~= Seq::<char>::empty());
            }
        }
        i = i + 1;
    }
    proof {
        assert(views.take(paths.len() as int) =~= views);
    }
    let mut msg = String::new();
    msg.append("Missing or invalid ");
    msg.append(label);
    msg.append(" tray icon. Expected one of: ");
    msg.append(list.as_str());
    proof {
        assert(msg@ =~= missing_icon_text(label@, views));
    }
    msg
}

} // verus!
