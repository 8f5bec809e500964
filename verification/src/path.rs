use vstd::prelude::*;
use vstd::string::StringSliceAdditionalSpecFns;
use vstd::utf8::{decode_utf8, valid_utf8};

verus! {

/// The separator byte of filesystem paths.
pub open spec fn separator() -> u8 {
    47u8
}

/// A path is absolute when it starts at the filesystem root.
pub open spec fn is_absolute_path(bytes: Seq<u8>) -> bool {
    bytes.len() > 0 && bytes[0] == separator()
}

/// Byte-wise equality of two byte sequences.
pub fn bytes_equal(left: &[u8], right: &[u8]) -> (equal: bool)
    ensures
        equal == (left@ == right@),
{
    if left.len() != right.len() {
        return false;
    }
    let mut index: usize = 0;
    while index < left.len()
        invariant
            left@.len() == right@.len(),
            index <= left@.len(),
            forall|i: int| 0 <= i < index ==> left@[i] == right@[i],
        decreases left@.len() - index,
    {
        if left[index] != right[index] {
            return false;
        }
        index = index + 1;
    }
    assert(left@ =~= right@);
    true
}

/// A filesystem path held as the raw bytes of the platform path.
#[derive(Clone, Debug, Eq, Hash)]
pub struct FsPath {
    bytes: Vec<u8>,
}

impl View for FsPath {
    type V = Seq<u8>;

    closed spec fn view(&self) -> Seq<u8> {
        self.bytes@
    }
}

impl FsPath {
    /// The path whose bytes are the UTF-8 encoding of `text`.
    pub fn new(text: &str) -> (path: Self)
        ensures
            path@ == text.spec_bytes(),
    {
        FsPath { bytes: vstd::slice::slice_to_vec(text.as_bytes()) }
    }

    pub fn from_bytes(bytes: Vec<u8>) -> (path: Self)
        ensures
            path@ == bytes@,
    {
        FsPath { bytes }
    }

    /// The empty path.
    pub fn empty() -> (path: Self)
        ensures
            path@ == Seq::<u8>::empty(),
    {
        FsPath { bytes: Vec::new() }
    }

    pub fn as_bytes(&self) -> (bytes: &[u8])
        ensures
            bytes@ == self@,
    {
        self.bytes.as_slice()
    }

    pub fn duplicate(&self) -> (path: Self)
        ensures
            path@ == self@,
    {
        FsPath { bytes: vstd::slice::slice_to_vec(self.bytes.as_slice()) }
    }

    pub fn is_absolute(&self) -> (absolute: bool)
        ensures
            absolute == is_absolute_path(self@),
    {
        self.bytes.len() > 0 && self.bytes[0] == 47u8
    }

    pub fn is_empty(&self) -> (empty: bool)
        ensures
            empty == (self@.len() == 0),
    {
        self.bytes.len() == 0
    }

    pub fn same_as(&self, other: &FsPath) -> (same: bool)
        ensures
            same == (self@ == other@),
    {
        bytes_equal(self.bytes.as_slice(), other.bytes.as_slice())
    }
}

impl PartialEq for FsPath {
    fn eq(&self, other: &Self) -> (equal: bool) {
        bytes_equal(self.bytes.as_slice(), other.bytes.as_slice())
    }
}

impl vstd::std_specs::cmp::PartialEqSpecImpl for FsPath {
    open spec fn obeys_eq_spec() -> bool {
        true
    }

    open spec fn eq_spec(&self, other: &Self) -> bool {
        self@ == other@
    }
}

/// The byte of the current-directory component.
pub open spec fn dot() -> u8 {
    46u8
}

/// The pieces of a path between separators, in order, empty ones included.
pub open spec fn path_pieces(bytes: Seq<u8>) -> Seq<Seq<u8>>
    decreases bytes.len(),
{
    if bytes.len() == 0 {
        seq![Seq::empty()]
    } else {
        let pieces = path_pieces(bytes.drop_last());
        if bytes.last() == separator() {
            pieces.push(Seq::empty())
        } else {
            pieces.update(pieces.len() - 1, pieces.last().push(bytes.last()))
        }
    }
}

/// Empty pieces (repeated or trailing separators) and `.` pieces name no
/// component.
pub open spec fn is_skipped_piece(piece: Seq<u8>) -> bool {
    piece.len() == 0 || piece == seq![dot()]
}

pub open spec fn kept_pieces(pieces: Seq<Seq<u8>>) -> Seq<Seq<u8>> {
    pieces.filter(|piece: Seq<u8>| !is_skipped_piece(piece))
}

/// The pieces joined by single separators.
pub open spec fn join_pieces(pieces: Seq<Seq<u8>>) -> Seq<u8>
    decreases pieces.len(),
{
    if pieces.len() == 0 {
        Seq::empty()
    } else if pieces.len() == 1 {
        pieces[0]
    } else {
        join_pieces(pieces.drop_last()) + seq![separator()] + pieces.last()
    }
}

/// The path rebuilt from its components, as the standard library reads
/// them: a root, then the named components joined by single separators,
/// with a leading `.` kept only at the start of a relative path.
pub open spec fn normalize_lexical(path: Seq<u8>) -> Seq<u8> {
    if is_absolute_path(path) {
        seq![separator()] + join_pieces(kept_pieces(path_pieces(path.drop_first())))
    } else {
        let pieces = path_pieces(path);
        if pieces[0] == seq![dot()] {
            join_pieces(seq![pieces[0]] + kept_pieces(pieces.drop_first()))
        } else {
            join_pieces(kept_pieces(pieces))
        }
    }
}

/// `path` taken relative to `base`, unless it is absolute.
pub open spec fn join_path(base: Seq<u8>, path: Seq<u8>) -> Seq<u8> {
    if is_absolute_path(path) {
        path
    } else if base.len() > 0 && base.last() != separator() {
        base + seq![separator()] + path
    } else {
        base + path
    }
}

proof fn lemma_path_pieces_nonempty(bytes: Seq<u8>)
    ensures
        path_pieces(bytes).len() >= 1,
    decreases bytes.len(),
{
    if bytes.len() > 0 {
        lemma_path_pieces_nonempty(bytes.drop_last());
    }
}

pub open spec fn piece_views(pieces: Seq<Vec<u8>>) -> Seq<Seq<u8>> {
    pieces.map_values(|piece: Vec<u8>| piece@)
}

/// Splits `bytes[start..]` at every separator.
fn split_pieces(bytes: &[u8], start: usize) -> (pieces: Vec<Vec<u8>>)
    requires
        start <= bytes@.len(),
    ensures
        piece_views(pieces@) == path_pieces(bytes@.subrange(start as int, bytes@.len() as int)),
{
    let ghost tail = bytes@.subrange(start as int, bytes@.len() as int);
    let mut done: Vec<Vec<u8>> = Vec::new();
    let mut current: Vec<u8> = Vec::new();
    let mut i: usize = start;
    proof {
        assert(tail.take(0) =~= Seq::<u8>::empty());
        assert(piece_views(done@).push(current@) =~= path_pieces(tail.take(0)));
    }
    while i < bytes.len()
        invariant
            start <= i <= bytes@.len(),
            tail == bytes@.subrange(start as int, bytes@.len() as int),
            piece_views(done@).push(current@) == path_pieces(tail.take(i - start)),
        decreases bytes@.len() - i,
    {
        let ghost before = tail.take(i - start);
        proof {
            let next = tail.take(i - start + 1);
            assert(next.drop_last() =~= before);
            assert(next.last() == bytes@[i as int]);
            lemma_path_pieces_nonempty(before);
        }
        if bytes[i] == 47u8 {
            let finished = current;
            done.push(finished);
            current = Vec::new();
            proof {
                assert(piece_views(done@) =~= piece_views(done@.drop_last()).push(finished@));
                assert(piece_views(done@).push(current@) =~= path_pieces(before).push(
                    Seq::empty(),
                ));
            }
        } else {
            let ghost previous = current@;
            current.push(bytes[i]);
            proof {
                let pieces = path_pieces(before);
                assert(pieces.last() == previous);
                assert(piece_views(done@).push(current@) =~= pieces.update(
                    pieces.len() - 1,
                    previous.push(bytes@[i as int]),
                ));
            }
        }
        i = i + 1;
    }
    proof {
        assert(tail.take(i - start) =~= tail);
    }
    let ghost finished = current@;
    done.push(current);
    proof {
        assert(piece_views(done@) =~= piece_views(done@.drop_last()).push(finished));
    }
    done
}

/// Appends `piece` to `out`, after a separator unless `out` holds nothing
/// yet.
fn append_piece(out: &mut Vec<u8>, piece: &[u8], first: bool)
    ensures
        final(out)@ == if first {
            old(out)@ + piece@
        } else {
            old(out)@ + seq![separator()] + piece@
        },
{
    let ghost start = if first {
        old(out)@
    } else {
        old(out)@ + seq![separator()]
    };
    if !first {
        out.push(47u8);
    }
    let mut k: usize = 0;
    while k < piece.len()
        invariant
            k <= piece@.len(),
            out@ == start + piece@.take(k as int),
        decreases piece@.len() - k,
    {
        out.push(piece[k]);
        proof {
            assert(piece@.take(k + 1) =~= piece@.take(k as int).push(piece@[k as int]));
            assert(start + piece@.take(k + 1) =~= (start + piece@.take(k as int)).push(
                piece@[k as int],
            ));
        }
        k = k + 1;
    }
    proof {
        assert(piece@.take(k as int) =~= piece@);
    }
}

fn is_skipped(piece: &[u8]) -> (skipped: bool)
    ensures
        skipped == is_skipped_piece(piece@),
{
    if piece.len() == 0 {
        return true;
    }
    if piece.len() == 1 && piece[0] == 46u8 {
        proof {
            assert(piece@ =~= seq![dot()]);
        }
        return true;
    }
    proof {
        if piece@ == seq![dot()] {
            assert(piece@[0] == dot());
        }
    }
    false
}

/// Joins the pieces from `from` on, keeping those that name a component,
/// after what `out` already holds.
fn append_kept(
    out: &mut Vec<u8>,
    pieces: &Vec<Vec<u8>>,
    from: usize,
    started: bool,
    kept_before: Ghost<Seq<Seq<u8>>>,
)
    requires
        from <= pieces@.len(),
        started == (kept_before@.len() > 0),
        old(out)@ == join_pieces(kept_before@),
    ensures
        final(out)@ == join_pieces(
            kept_before@ + kept_pieces(piece_views(pieces@).subrange(from as int, pieces@.len() as int)),
        ),
{
    let ghost views = piece_views(pieces@).subrange(from as int, pieces@.len() as int);
    let ghost pred = |piece: Seq<u8>| !is_skipped_piece(piece);
    let mut i: usize = from;
    let mut started = started;
    proof {
        reveal(Seq::filter);
        assert(views.take(0) =~= Seq::<Seq<u8>>::empty());
        assert(kept_before@ + views.take(0).filter(pred) =~= kept_before@);
    }
    while i < pieces.len()
        invariant
            from <= i <= pieces@.len(),
            views == piece_views(pieces@).subrange(from as int, pieces@.len() as int),
            pred == (|piece: Seq<u8>| !is_skipped_piece(piece)),
            out@ == join_pieces(kept_before@ + views.take(i - from).filter(pred)),
            started == ((kept_before@ + views.take(i - from).filter(pred)).len() > 0),
        decreases pieces@.len() - i,
    {
        let ghost prefix = kept_before@ + views.take(i - from).filter(pred);
        proof {
            reveal(Seq::filter);
            let next = views.take(i - from + 1);
            assert(next.drop_last() =~= views.take(i - from));
            assert(next.last() == pieces@[i as int]@);
        }
        let piece = pieces[i].as_slice();
        if !is_skipped(piece) {
            proof {
                if prefix.len() > 0 {
                    assert((prefix.push(piece@)).drop_last() =~= prefix);
                }
                assert(kept_before@ + views.take(i - from + 1).filter(pred) =~= prefix.push(piece@));
                if prefix.len() == 0 {
                    assert(prefix.push(piece@) =~= seq![piece@]);
                }
            }
            append_piece(out, piece, !started);
            started = true;
            proof {
                if prefix.len() == 0 {
                    assert(out@ =~= piece@);
                }
            }
        } else {
            proof {
                assert(kept_before@ + views.take(i - from + 1).filter(pred) =~= prefix);
            }
        }
        i = i + 1;
    }
    proof {
        assert(views.take(i - from) =~= views);
    }
}

/// The path rebuilt from its components (see [`normalize_lexical`]).
pub fn normalize_lexical_path(path: &[u8]) -> (normalized: Vec<u8>)
    ensures
        normalized@ == normalize_lexical(path@),
{
    let mut out: Vec<u8> = Vec::new();
    if path.len() > 0 && path[0] == 47u8 {
        let pieces = split_pieces(path, 1);
        out.push(47u8);
        let ghost root = out@;
        let mut rest: Vec<u8> = Vec::new();
        append_kept(&mut rest, &pieces, 0, false, Ghost(Seq::empty()));
        let mut k: usize = 0;
        while k < rest.len()
            invariant
                k <= rest@.len(),
                out@ == root + rest@.take(k as int),
            decreases rest@.len() - k,
        {
            out.push(rest[k]);
            proof {
                assert(rest@.take(k + 1) =~= rest@.take(k as int).push(rest@[k as int]));
                assert(root + rest@.take(k + 1) =~= (root + rest@.take(k as int)).push(
                    rest@[k as int],
                ));
            }
            k = k + 1;
        }
        proof {
            assert(rest@.take(k as int) =~= rest@);
            assert(path@.drop_first() =~= path@.subrange(1, path@.len() as int));
            assert(piece_views(pieces@).subrange(0, pieces@.len() as int) =~= piece_views(
                pieces@,
            ));
            assert(Seq::<Seq<u8>>::empty() + kept_pieces(piece_views(pieces@)) =~= kept_pieces(
                piece_views(pieces@),
            ));
            assert(root =~= seq![separator()]);
        }
        out
    } else {
        let pieces = split_pieces(path, 0);
        proof {
            assert(path@.subrange(0, path@.len() as int) =~= path@);
            lemma_path_pieces_nonempty(path@);
        }
        let first = pieces[0].as_slice();
        if first.len() == 1 && first[0] == 46u8 {
            proof {
                assert(first@ =~= seq![dot()]);
            }
            append_piece(&mut out, first, true);
            proof {
                assert(out@ =~= first@);
                assert(join_pieces(seq![first@]) == first@);
            }
            let ghost leading = seq![first@];
            append_kept(&mut out, &pieces, 1, true, Ghost(leading));
            proof {
                assert(piece_views(pieces@).subrange(1, pieces@.len() as int) =~= piece_views(
                    pieces@,
                ).drop_first());
            }
        } else {
            proof {
                if piece_views(pieces@)[0] == seq![dot()] {
                    assert(first@[0] == dot());
                }
            }
            append_kept(&mut out, &pieces, 0, false, Ghost(Seq::empty()));
            proof {
                assert(piece_views(pieces@).subrange(0, pieces@.len() as int) =~= piece_views(
                    pieces@,
                ));
                assert(Seq::<Seq<u8>>::empty() + kept_pieces(piece_views(pieces@)) =~= kept_pieces(
                    piece_views(pieces@),
                ));
            }
        }
        out
    }
}

/// `path` taken relative to `base`, unless it is absolute.
pub fn join_paths(base: &[u8], path: &[u8]) -> (joined: Vec<u8>)
    ensures
        joined@ == join_path(base@, path@),
{
    if path.len() > 0 && path[0] == 47u8 {
        return vstd::slice::slice_to_vec(path);
    }
    let mut out = vstd::slice::slice_to_vec(base);
    let needs_separator = base.len() > 0 && base[base.len() - 1] != 47u8;
    append_piece(&mut out, path, !needs_separator);
    out
}

/// The text a byte string encodes, when it is valid UTF-8.
///
/// Calls `std::str::from_utf8`, which accepts exactly the valid UTF-8
/// byte strings; the contract states that, and that the text returned is
/// the one those bytes decode to.
#[verifier::external_body]
pub(crate) fn utf8_text(bytes: &[u8]) -> (text: Option<&str>)
    ensures
        text is Some <==> valid_utf8(bytes@),
        text matches Some(t) ==> t@ == decode_utf8(bytes@),
{
    match std::str::from_utf8(bytes) {
        Ok(text) => Some(text),
        Err(_) => None,
    }
}

} // verus!
