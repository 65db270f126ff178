//! Telling the image files among the files that were found.
//!
//! A file is taken for an image by its name where the extension says so.
//! Where the name tells nothing, the first bytes of the file decide.

use std::path::PathBuf;
use vstd::prelude::*;
use vstd::seq_lib::{to_multiset_contains, to_multiset_len, to_multiset_remove};
use vstd::slice::slice_subrange;
use vstd::string::StringExecFns;

verus! {

/// The number of bytes, from the start of a file, that the content probe
/// looks at.
pub const PROBE_LIMIT: usize = 8192;

/// The top-level media type that `new_mime_guess` gives for a path, by the
/// extension `Path::extension` finds in it: `image` for `a.png`,
/// `application` where it knows no type for the extension.
pub uninterp spec fn guessed_type(path: Seq<char>) -> Seq<char>;

/// Whether `infer` finds the signature of an image format at the start of
/// these bytes.
pub uninterp spec fn sniffed_image(head: Seq<u8>) -> bool;

/// Calls `new_mime_guess::from_path` and takes the top-level type of the
/// first media type it guesses, `application/octet-stream` standing in
/// where it guesses none. The guess reads the path only, never the disk;
/// the contract names what it gives and says nothing more of it.
#[verifier::external_body]
fn media_type(path: &str) -> (top: String)
    ensures
        top@ == guessed_type(path@),
{
    new_mime_guess::from_path(path).first_or_octet_stream().type_().as_str().to_owned()
}

/// Calls `infer::is_image`, which matches the start of the buffer against
/// the signatures of the image formats it knows. It reads the buffer only;
/// the contract names what it gives and says nothing more of it.
#[verifier::external_body]
fn sniff_image(head: &[u8]) -> (found: bool)
    ensures
        found == sniffed_image(head@),
{
    infer::is_image(head)
}

/// The name of the top-level media type of images.
pub open spec fn image_type() -> Seq<char> {
    seq!['i', 'm', 'a', 'g', 'e']
}

/// Whether the name of a file says that it is an image.
pub open spec fn named_image(path: Seq<char>) -> bool {
    guessed_type(path) == image_type()
}

/// The part of a file's content that the probe looks at.
pub open spec fn probe_window(content: Seq<u8>) -> Seq<u8> {
    if content.len() <= PROBE_LIMIT {
        content
    } else {
        content.subrange(0, PROBE_LIMIT as int)
    }
}

/// Whether the name of the file at `path` says that it is an image.
pub fn has_image_name(path: &str) -> (named: bool)
    ensures
        named == named_image(path@),
{
    let top: String = media_type(path);
    let image: String = String::from_str("image");
    proof {
        reveal_strlit("image");
        assert("image"@ =~= image_type());
    }
    top == image
}

/// Whether the content of a file starts like an image. `head` holds the
/// start of the file; what lies beyond `PROBE_LIMIT` bytes is not looked
/// at.
pub fn is_image(head: &[u8]) -> (found: bool)
    ensures
        found == sniffed_image(probe_window(head@)),
{
    if head.len() > PROBE_LIMIT {
        sniff_image(slice_subrange(head, 0, PROBE_LIMIT))
    } else {
        sniff_image(head)
    }
}

/// What was read of a file whose name told nothing.
#[derive(Debug)]
pub struct Probe {
    /// The path of the file.
    pub path: String,
    /// The start of its content, or `None` where the file could not be
    /// read.
    pub head: Option<Vec<u8>>,
}

impl Probe {
    /// Whether the probe shows an image: the file was read and starts like
    /// one.
    pub open spec fn passes(self) -> bool {
        match self.head {
            Some(bytes) => sniffed_image(probe_window(bytes@)),
            None => false,
        }
    }
}

/// The paths as sequences of characters.
pub open spec fn texts(paths: Seq<String>) -> Seq<Seq<char>> {
    paths.map_values(|path: String| path@)
}

/// The files that are images by their names, in the order given.
pub open spec fn with_image_names(files: Seq<Seq<char>>) -> Seq<Seq<char>>
    decreases files.len(),
{
    if files.len() == 0 {
        Seq::empty()
    } else if named_image(files.last()) {
        with_image_names(files.drop_last()).push(files.last())
    } else {
        with_image_names(files.drop_last())
    }
}

/// The files whose names tell nothing, in the order given.
pub open spec fn without_image_names(files: Seq<Seq<char>>) -> Seq<Seq<char>>
    decreases files.len(),
{
    if files.len() == 0 {
        Seq::empty()
    } else if named_image(files.last()) {
        without_image_names(files.drop_last())
    } else {
        without_image_names(files.drop_last()).push(files.last())
    }
}

/// The paths of the probes that show an image, in the order given.
pub open spec fn passing(probes: Seq<Probe>) -> Seq<Seq<char>>
    decreases probes.len(),
{
    if probes.len() == 0 {
        Seq::empty()
    } else if probes.last().passes() {
        passing(probes.drop_last()).push(probes.last().path@)
    } else {
        passing(probes.drop_last())
    }
}

/// The order of texts: character by character, by code point; a text comes
/// before every longer text that starts with it.
pub open spec fn text_in_order(first: Seq<char>, second: Seq<char>) -> bool
    decreases first.len(),
{
    if first.len() == 0 {
        true
    } else if second.len() == 0 {
        false
    } else if first[0] == second[0] {
        text_in_order(first.drop_first(), second.drop_first())
    } else {
        (first[0] as u32) < (second[0] as u32)
    }
}

/// One step of the way that a path describes.
pub enum PathStep {
    /// The root of the file system: the separator at the start of a path.
    Root,
    /// The directory one stands in: a `.` at the start of a path.
    Here,
    /// The directory above: `..`.
    Up,
    /// The file or directory of this name.
    Name(Seq<char>),
}

impl PathStep {
    /// The place of a kind of step among the kinds: the root comes first,
    /// names come last.
    pub open spec fn rank(self) -> int {
        match self {
            PathStep::Root => 0,
            PathStep::Here => 1,
            PathStep::Up => 2,
            PathStep::Name(_) => 3,
        }
    }

    /// The order of steps: by kind, and names by their texts.
    pub open spec fn before(self, other: PathStep) -> bool {
        if self.rank() != other.rank() {
            self.rank() < other.rank()
        } else {
            match (self, other) {
                (PathStep::Name(first), PathStep::Name(second)) => text_in_order(first, second),
                _ => true,
            }
        }
    }
}

/// The pieces of a path between its separators, empty pieces and all. The
/// separator is `/`.
pub open spec fn pieces(path: Seq<char>) -> Seq<Seq<char>>
    decreases path.len(),
{
    if path.len() == 0 {
        seq![Seq::empty()]
    } else {
        let before = pieces(path.drop_last());
        if path.last() == '/' {
            before.push(Seq::empty())
        } else {
            before.drop_last().push(before.last().push(path.last()))
        }
    }
}

/// The steps that the pieces of a path stand for, past its start: an empty
/// piece and `.` stand for none, `..` goes up, any other piece is a name.
pub open spec fn steps_of(pieces: Seq<Seq<char>>) -> Seq<PathStep>
    decreases pieces.len(),
{
    if pieces.len() == 0 {
        Seq::empty()
    } else {
        let before = steps_of(pieces.drop_last());
        let piece = pieces.last();
        if piece.len() == 0 || piece == seq!['.'] {
            before
        } else if piece == seq!['.', '.'] {
            before.push(PathStep::Up)
        } else {
            before.push(PathStep::Name(piece))
        }
    }
}

/// The steps of a path, as the standard library takes a path apart:
/// separators that follow each other count once, a separator at the end
/// counts for nothing, and `.` counts only at the start of a path that does
/// not start at the root. So `a//b`, `a/./b` and `a/b/` have the steps of
/// `a/b`.
pub open spec fn steps(path: Seq<char>) -> Seq<PathStep> {
    if path.len() > 0 && path[0] == '/' {
        seq![PathStep::Root] + steps_of(pieces(path))
    } else if pieces(path)[0] == seq!['.'] {
        seq![PathStep::Here] + steps_of(pieces(path))
    } else {
        steps_of(pieces(path))
    }
}

/// The order of ways: step by step; a way comes before every longer way
/// that starts with it.
pub open spec fn steps_in_order(first: Seq<PathStep>, second: Seq<PathStep>) -> bool
    decreases first.len(),
{
    if first.len() == 0 {
        true
    } else if second.len() == 0 {
        false
    } else if first[0] == second[0] {
        steps_in_order(first.drop_first(), second.drop_first())
    } else {
        first[0].before(second[0])
    }
}

/// The order of paths: `first` does not come after `second`. Paths are
/// compared step by step, not letter by letter: `a/b` comes before `a-b`,
/// since the name `a` comes before the name `a-b`. Two texts with the same
/// steps are one path, and each is in order with the other.
pub open spec fn in_order(first: Seq<char>, second: Seq<char>) -> bool {
    steps_in_order(steps(first), steps(second))
}

/// No path stands before one that it should follow. Texts that are one
/// path may stand either way round.
pub open spec fn sorted(paths: Seq<Seq<char>>) -> bool {
    forall|i: int, j: int| 0 <= i < j < paths.len() ==> in_order(paths[i], paths[j])
}

/// Each text has its own steps: no two different texts of the list are one
/// path.
pub open spec fn told_apart(paths: Seq<Seq<char>>) -> bool {
    forall|i: int, j: int|
        0 <= i < paths.len() && 0 <= j < paths.len() && steps(paths[i]) == steps(paths[j])
            ==> paths[i] == paths[j]
}

/// Two texts of which each comes before the other are the same text.
pub proof fn text_in_order_meets(first: Seq<char>, second: Seq<char>)
    requires
        text_in_order(first, second),
        text_in_order(second, first),
    ensures
        first == second,
    decreases first.len(),
{
    if first.len() == 0 {
        assert(first =~= second);
    } else {
        text_in_order_meets(first.drop_first(), second.drop_first());
        assert(first =~= seq![first[0]] + first.drop_first());
        assert(second =~= seq![second[0]] + second.drop_first());
    }
}

/// Every way comes before itself.
pub proof fn steps_in_order_reflexive(way: Seq<PathStep>)
    ensures
        steps_in_order(way, way),
    decreases way.len(),
{
    if way.len() > 0 {
        steps_in_order_reflexive(way.drop_first());
    }
}

/// Two ways of which each comes before the other are the same way.
pub proof fn steps_in_order_meets(first: Seq<PathStep>, second: Seq<PathStep>)
    requires
        steps_in_order(first, second),
        steps_in_order(second, first),
    ensures
        first == second,
    decreases first.len(),
{
    if first.len() == 0 {
        assert(first =~= second);
    } else {
        if first[0] != second[0] {
            match (first[0], second[0]) {
                (PathStep::Name(a), PathStep::Name(b)) => {
                    text_in_order_meets(a, b);
                },
                _ => {},
            }
        }
        steps_in_order_meets(first.drop_first(), second.drop_first());
        assert(first =~= seq![first[0]] + first.drop_first());
        assert(second =~= seq![second[0]] + second.drop_first());
    }
}

/// Every path is in order with itself.
pub proof fn in_order_reflexive(path: Seq<char>)
    ensures
        in_order(path, path),
{
    steps_in_order_reflexive(steps(path));
}

/// Two paths of which each comes before the other are one path: they have
/// the same steps.
pub proof fn in_order_meets(first: Seq<char>, second: Seq<char>)
    requires
        in_order(first, second),
        in_order(second, first),
    ensures
        steps(first) == steps(second),
{
    steps_in_order_meets(steps(first), steps(second));
}

/// The order of paths leaves one way only to arrange paths that are told
/// apart: two sorted lists of the same paths, each as often in one as in
/// the other, are the same list.
pub proof fn sorted_is_determined(first: Seq<Seq<char>>, second: Seq<Seq<char>>)
    requires
        sorted(first),
        sorted(second),
        told_apart(first),
        first.to_multiset() == second.to_multiset(),
    ensures
        first == second,
    decreases first.len(),
{
    to_multiset_len(first);
    to_multiset_len(second);
    if first.len() == 0 {
        assert(first =~= second);
    } else {
        let low = first[0];
        let other = second[0];
        assert(first.contains(low));
        assert(second.contains(other));
        to_multiset_contains(first, low);
        to_multiset_contains(second, low);
        to_multiset_contains(first, other);
        to_multiset_contains(second, other);
        let i = choose|i: int| 0 <= i < first.len() && first[i] == other;
        let j = choose|j: int| 0 <= j < second.len() && second[j] == low;
        assert(in_order(low, other)) by {
            if i == 0 {
                in_order_reflexive(low);
            }
        }
        assert(in_order(other, low)) by {
            if j == 0 {
                in_order_reflexive(other);
            }
        }
        in_order_meets(low, other);
        assert(low == other) by {
            assert(steps(first[0]) == steps(first[i]));
        }
        to_multiset_remove(first, 0);
        to_multiset_remove(second, 0);
        assert(first.remove(0) =~= first.drop_first());
        assert(second.remove(0) =~= second.drop_first());
        assert(sorted(first.drop_first())) by {
            assert forall|a: int, b: int| 0 <= a < b < first.drop_first().len() implies in_order(
                first.drop_first()[a],
                first.drop_first()[b],
            ) by {
                assert(in_order(first[a + 1], first[b + 1]));
            }
        }
        assert(sorted(second.drop_first())) by {
            assert forall|a: int, b: int| 0 <= a < b < second.drop_first().len() implies in_order(
                second.drop_first()[a],
                second.drop_first()[b],
            ) by {
                assert(in_order(second[a + 1], second[b + 1]));
            }
        }
        assert(told_apart(first.drop_first())) by {
            assert forall|a: int, b: int|
                0 <= a < first.drop_first().len() && 0 <= b < first.drop_first().len() && steps(
                    first.drop_first()[a],
                ) == steps(first.drop_first()[b]) implies first.drop_first()[a]
                == first.drop_first()[b] by {
                assert(steps(first[a + 1]) == steps(first[b + 1]));
            }
        }
        sorted_is_determined(first.drop_first(), second.drop_first());
        assert(first =~= seq![low] + first.drop_first());
        assert(second =~= seq![other] + second.drop_first());
    }
}

/// Sorts the paths as the standard library orders paths: `sort_unstable` on
/// the paths as `PathBuf`s. Where `/` is the separator, it compares two
/// paths step by step, the steps by their kind and names by their bytes,
/// which is the order of their code points. It neither drops nor adds a
/// path; of texts that are one path it leaves open which comes first.
#[verifier::external_body]
fn sort_paths(paths: &mut Vec<String>)
    ensures
        sorted(texts(final(paths)@)),
        texts(final(paths)@).to_multiset() == texts(old(paths)@).to_multiset(),
{
    let mut ways: Vec<PathBuf> = paths.drain(..).map(PathBuf::from).collect();
    ways.sort_unstable();
    paths.extend(ways.iter().map(|way| way.to_string_lossy().into_owned()));
}

/// Parts the files by their names: those that are images by name, and those
/// whose names tell nothing. Each part keeps the order of `files`.
pub fn split_by_name(files: Vec<String>) -> (parts: (Vec<String>, Vec<String>))
    ensures
        texts(parts.0@) == with_image_names(texts(files@)),
        texts(parts.1@) == without_image_names(texts(files@)),
{
    let mut images: Vec<String> = Vec::new();
    let mut unknown: Vec<String> = Vec::new();
    let ghost all = texts(files@);
    for path in it: files
        invariant
            all == texts(files@),
            texts(images@) == with_image_names(all.take(it.index() as int)),
            texts(unknown@) == without_image_names(all.take(it.index() as int)),
    {
        proof {
            let seen = all.take(it.index() as int + 1);
            assert(seen.drop_last() =~= all.take(it.index() as int));
            assert(seen.last() == path@);
        }
        if has_image_name(path.as_str()) {
            proof {
                assert(texts(images@.push(path)) =~= texts(images@).push(path@));
            }
            images.push(path);
        } else {
            proof {
                assert(texts(unknown@.push(path)) =~= texts(unknown@).push(path@));
            }
            unknown.push(path);
        }
    }
    proof {
        assert(all.take(all.len() as int) =~= all);
    }
    (images, unknown)
}

/// `images` holds the files that are images by name and those whose probe
/// shows an image, each as often as it was given, in the order of paths.
pub open spec fn gathered(
    images: Seq<Seq<char>>,
    named: Seq<Seq<char>>,
    probes: Seq<Probe>,
) -> bool {
    &&& sorted(images)
    &&& images.to_multiset() == (named + passing(probes)).to_multiset()
}

/// What `gathered` asks of a list is met by one list only, where the paths
/// are told apart. Texts that are one path, such as `a//b` and `a/b`, may
/// change places.
pub proof fn gathered_is_determined(
    first: Seq<Seq<char>>,
    second: Seq<Seq<char>>,
    named: Seq<Seq<char>>,
    probes: Seq<Probe>,
)
    requires
        gathered(first, named, probes),
        gathered(second, named, probes),
        told_apart(first),
    ensures
        first == second,
{
    sorted_is_determined(first, second);
}

/// The list of images: the files that are images by name together with
/// those whose probe shows an image, sorted by path.
pub fn collect_images(named: Vec<String>, probes: Vec<Probe>) -> (images: Vec<String>)
    ensures
        gathered(texts(images@), texts(named@), probes@),
{
    let ghost by_name = texts(named@);
    let mut images: Vec<String> = named;
    for probe in it: probes
        invariant
            texts(images@) == by_name + passing(probes@.take(it.index() as int)),
    {
        proof {
            let seen = probes@.take(it.index() as int + 1);
            assert(seen.drop_last() =~= probes@.take(it.index() as int));
            assert(seen.last() == probe);
        }
        let accepted: bool = match &probe.head {
            Some(bytes) => is_image(bytes.as_slice()),
            None => false,
        };
        if accepted {
            proof {
                let before = passing(probes@.take(it.index() as int));
                assert(texts(images@.push(probe.path)) =~= texts(images@).push(probe.path@));
                assert((by_name + before).push(probe.path@) =~= by_name + before.push(
                    probe.path@,
                ));
            }
            images.push(probe.path);
        }
    }
    proof {
        assert(probes@.take(probes@.len() as int) =~= probes@);
    }
    sort_paths(&mut images);
    images
}

/// `probes` is what `read_head` gave for `paths`, one probe for each path
/// and in the same order.
pub open spec fn probed<R: Fn(&str) -> Option<Vec<u8>>>(
    read_head: R,
    paths: Seq<Seq<char>>,
    probes: Seq<Probe>,
) -> bool {
    &&& probes.len() == paths.len()
    &&& forall|i: int|
        0 <= i < probes.len() ==> {
            &&& (#[trigger] probes[i]).path@ == paths[i]
            &&& exists|path: &str|
                path@ == paths[i] && call_ensures(read_head, (path,), probes[i].head)
        }
}

/// A file whose name tells nothing is one of the files, and its name tells
/// nothing.
pub proof fn without_image_names_holds(files: Seq<Seq<char>>, path: Seq<char>)
    requires
        without_image_names(files).contains(path),
    ensures
        files.contains(path),
        !named_image(path),
    decreases files.len(),
{
    if files.len() > 0 {
        let before = without_image_names(files.drop_last());
        if !named_image(files.last()) && path == files.last() {
            assert(files[files.len() - 1] == path);
        } else {
            let i = choose|i: int|
                0 <= i < without_image_names(files).len() && without_image_names(files)[i] == path;
            assert(before[i] == path);
            without_image_names_holds(files.drop_last(), path);
            let j = choose|j: int| 0 <= j < files.drop_last().len() && files.drop_last()[j] == path;
            assert(files[j] == path);
        }
    }
}

/// Finds the images among `files`. A file with the name of an image is
/// taken as it is. Of every other file `read_head` is asked for the first
/// `PROBE_LIMIT` bytes, and the file is taken if they start like an image;
/// a file that `read_head` cannot read is left out. The images come back
/// sorted by path.
pub fn find_images<R: Fn(&str) -> Option<Vec<u8>>>(files: Vec<String>, read_head: &R) -> (images:
    Vec<String>)
    requires
        forall|path: &str|
            texts(files@).contains(path@) && !named_image(path@) ==> call_requires(
                *read_head,
                (path,),
            ),
    ensures
        exists|probes: Seq<Probe>|
            #[trigger] probed(*read_head, without_image_names(texts(files@)), probes) && gathered(
                texts(images@),
                with_image_names(texts(files@)),
                probes,
            ),
{
    let ghost given = texts(files@);
    let (named, unknown) = split_by_name(files);
    let ghost asked = texts(unknown@);
    let mut probes: Vec<Probe> = Vec::new();
    for path in it: unknown
        invariant
            asked == texts(unknown@),
            asked == without_image_names(given),
            forall|path: &str|
                given.contains(path@) && !named_image(path@) ==> call_requires(
                    *read_head,
                    (path,),
                ),
            probed(*read_head, asked.take(it.index() as int), probes@),
    {
        proof {
            assert(asked[it.index() as int] == path@);
            without_image_names_holds(given, path@);
        }
        let head: Option<Vec<u8>> = read_head(path.as_str());
        probes.push(Probe { path, head });
    }
    proof {
        assert(asked.take(asked.len() as int) =~= asked);
    }
    let ghost answers = probes@;
    let images = collect_images(named, probes);
    assert(probed(*read_head, without_image_names(given), answers));
    assert(gathered(texts(images@), with_image_names(given), answers));
    images
}

} // verus!
