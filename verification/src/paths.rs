//! File names, the way Windows spells them.
//!
//! A path is a prefix (a drive, a share, a device, or a verbatim one behind
//! `\\?\`), perhaps a root, and parts between separators. A separator too many
//! and a part that is a single dot mean nothing, except in a verbatim path,
//! where a dot is a part like any other and only a backslash separates.

use vstd::prelude::*;

use crate::text::{chars_of, part, string_of};

verus! {

/// Whether a character separates the parts of an ordinary path.
pub open spec fn separates(c: char) -> bool {
    c == '\\' || c == '/'
}

/// Whether a character separates the parts of a path.
pub open spec fn splits(c: char, verbatim: bool) -> bool {
    c == '\\' || c == '/' && !verbatim
}

/// The first separator from a place on, or the end.
pub open spec fn next_split(path: Seq<char>, verbatim: bool, from: int) -> int
    decreases path.len() - from,
{
    if from >= path.len() {
        path.len() as int
    } else if splits(path[from], verbatim) {
        from
    } else {
        next_split(path, verbatim, from + 1)
    }
}

/// Whether a drive, such as `C:`, stands at a place.
pub open spec fn drive_at(path: Seq<char>, at: int) -> bool {
    path.len() >= at + 2 && path[at + 1] == ':' && 'a' <= crate::text::lower(path[at])
        && crate::text::lower(path[at]) <= 'z'
}

/// Whether a path is verbatim: nothing in it is read as anything but itself.
pub open spec fn is_verbatim(path: Seq<char>) -> bool {
    path.len() >= 4 && path[0] == '\\' && path[1] == '\\' && path[2] == '?' && path[3] == '\\'
}

/// Whether a path begins with two separators.
pub open spec fn begins_twice(path: Seq<char>) -> bool {
    path.len() >= 2 && separates(path[0]) && separates(path[1])
}

/// Whether the prefix of a path is a drive and nothing else.
pub open spec fn on_a_drive(path: Seq<char>) -> bool {
    !begins_twice(path) && drive_at(path, 0)
}

/// Whether a verbatim path names a share on a server.
pub open spec fn is_verbatim_share(path: Seq<char>) -> bool {
    path.len() >= 8 && path[4] == 'U' && path[5] == 'N' && path[6] == 'C' && separates(path[7])
}

/// Where a share ends, behind the server that ends here: with the server,
/// where there is no share.
pub open spec fn share_end(path: Seq<char>, verbatim: bool, server_end: int) -> int {
    if server_end + 1 < path.len() && !splits(path[server_end + 1], verbatim) {
        next_split(path, verbatim, server_end + 1)
    } else {
        server_end
    }
}

/// How much of a path is its prefix.
pub open spec fn prefix_len(path: Seq<char>) -> int {
    if is_verbatim(path) {
        if is_verbatim_share(path) {
            share_end(path, true, next_split(path, true, 8))
        } else if drive_at(path, 4) && (path.len() == 6 || separates(path[6])) {
            6
        } else {
            next_split(path, true, 4)
        }
    } else if begins_twice(path) {
        let server_end = next_split(path, false, 2);
        if path.len() >= 4 && path[2] == '.' && separates(path[3]) {
            next_split(path, false, 4)
        } else if server_end > 2 && share_end(path, false, server_end) > server_end {
            share_end(path, false, server_end)
        } else {
            0
        }
    } else if drive_at(path, 0) {
        2
    } else {
        0
    }
}

/// How much of a path is its root: the separator behind the prefix, where
/// there is one.
pub open spec fn root_len(path: Seq<char>) -> int {
    if prefix_len(path) < path.len() && separates(path[prefix_len(path)]) {
        1
    } else {
        0
    }
}

/// How much of a path is a dot it begins with, where it has no root to begin
/// at. A prefix that is no drive is a root as well.
pub open spec fn here_len(path: Seq<char>) -> int {
    let at = prefix_len(path);
    if root_len(path) == 0 && (at == 0 || on_a_drive(path)) && at < path.len() && path[at] == '.'
        && (path.len() == at + 1 || separates(path[at + 1])) {
        1
    } else {
        0
    }
}

/// Where the parts of a path begin.
pub open spec fn body_start(path: Seq<char>) -> int {
    prefix_len(path) + root_len(path) + here_len(path)
}

/// Where the last part before a place begins: behind the last separator.
pub open spec fn part_start(path: Seq<char>, verbatim: bool, start: int, end: int) -> int
    decreases end - start,
{
    if end <= start {
        start
    } else if splits(path[end - 1], verbatim) {
        end
    } else {
        part_start(path, verbatim, start, end - 1)
    }
}

/// What is left in front of a part, without its separator.
pub open spec fn in_front_of(start: int, from: int) -> int {
    if from > start {
        from - 1
    } else {
        start
    }
}

/// Whether a part means nothing.
pub open spec fn means_nothing(path: Seq<char>, verbatim: bool, from: int, to: int) -> bool {
    to <= from || to == from + 1 && path[from] == '.' && !verbatim
}

/// Where the last part that means something ends, or where the parts begin.
pub open spec fn trimmed(path: Seq<char>, verbatim: bool, start: int, end: int) -> int
    decreases end - start,
{
    if end <= start {
        end
    } else {
        proof {
            part_start_lies_between(path, verbatim, start, end);
        }
        let from = part_start(path, verbatim, start, end);
        if means_nothing(path, verbatim, from, end) {
            trimmed(path, verbatim, start, in_front_of(start, from))
        } else {
            end
        }
    }
}

/// The last part before a place begins no further than that.
pub proof fn part_start_lies_between(path: Seq<char>, verbatim: bool, start: int, end: int)
    requires
        start <= end,
    ensures
        start <= part_start(path, verbatim, start, end) <= end,
    decreases end - start,
{
    if start < end {
        part_start_lies_between(path, verbatim, start, end - 1);
    }
}

/// The next separator lies ahead, and no further than the end.
pub proof fn next_split_lies_ahead(path: Seq<char>, verbatim: bool, from: int)
    requires
        from <= path.len(),
    ensures
        from <= next_split(path, verbatim, from) <= path.len(),
    decreases path.len() - from,
{
    if from < path.len() {
        next_split_lies_ahead(path, verbatim, from + 1);
    }
}

/// Where the last part of a path ends.
pub open spec fn name_end(path: Seq<char>) -> int {
    trimmed(path, is_verbatim(path), body_start(path), path.len() as int)
}

/// Where the last part of a path begins.
pub open spec fn name_start(path: Seq<char>) -> int {
    part_start(path, is_verbatim(path), body_start(path), name_end(path))
}

/// Whether a path leads to something with a name: its last part is neither a
/// dot nor two.
pub open spec fn is_named(path: Seq<char>) -> bool {
    let name = path.subrange(name_start(path), name_end(path));
    name_end(path) > body_start(path) && name != seq!['.'] && name != seq!['.', '.']
}

/// The name of what a path leads to.
pub open spec fn file_name(path: Seq<char>) -> Option<Seq<char>> {
    if is_named(path) {
        Some(path.subrange(name_start(path), name_end(path)))
    } else {
        None
    }
}

/// What a path lies in: all but its last part. A root and a prefix lie in
/// nothing.
pub open spec fn parent_of(path: Seq<char>) -> Option<Seq<char>> {
    if name_end(path) > body_start(path) {
        Some(
            path.take(
                trimmed(
                    path,
                    is_verbatim(path),
                    body_start(path),
                    in_front_of(body_start(path), name_start(path)),
                ),
            ),
        )
    } else if here_len(path) == 1 && prefix_len(path) == 0 {
        Some(Seq::empty())
    } else {
        None
    }
}

/// The place of the last dot between two places, or the one before the first.
pub open spec fn last_dot(path: Seq<char>, from: int, to: int) -> int
    decreases to - from,
{
    if to <= from {
        from - 1
    } else if path[to - 1] == '.' {
        to - 1
    } else {
        last_dot(path, from, to - 1)
    }
}

/// Where the name of a file ends without its extension: at its last dot, if
/// that is not its first character.
pub open spec fn stem_end(path: Seq<char>) -> int {
    let dot = last_dot(path, name_start(path), name_end(path));
    if dot > name_start(path) {
        dot
    } else {
        name_end(path)
    }
}

/// The name of a file without its extension.
pub open spec fn stem_of(path: Seq<char>) -> Option<Seq<char>> {
    if is_named(path) {
        Some(path.subrange(name_start(path), stem_end(path)))
    } else {
        None
    }
}

/// The extension of a file's name, without its dot.
pub open spec fn extension_of(path: Seq<char>) -> Option<Seq<char>> {
    if is_named(path) && stem_end(path) < name_end(path) {
        Some(path.subrange(stem_end(path) + 1, name_end(path)))
    } else {
        None
    }
}

/// A path with the name of its file exchanged for another, or with one added
/// where it had none.
pub open spec fn renamed(path: Seq<char>, name: Seq<char>) -> Seq<char> {
    match parent_of(path) {
        Some(dir) if is_named(path) => under(dir, name),
        _ => under(path, name),
    }
}

/// A path with the extension of its file exchanged for another. One that leads
/// to nothing with a name stays as it is.
pub open spec fn extended(path: Seq<char>, extension: Seq<char>) -> Seq<char> {
    if !is_named(path) {
        path
    } else if extension.len() == 0 {
        path.take(stem_end(path))
    } else {
        path.take(stem_end(path)) + seq!['.'] + extension
    }
}

/// One part of a path, or its root.
pub ghost enum PieceView {
    Root,
    Here,
    Up,
    Name(Seq<char>),
}

/// What a part of a path is. One that means nothing is no piece.
pub open spec fn piece_of(text: Seq<char>, verbatim: bool) -> Option<PieceView> {
    if text.len() == 0 {
        None
    } else if text == seq!['.'] {
        if verbatim {
            Some(PieceView::Here)
        } else {
            None
        }
    } else if text == seq!['.', '.'] {
        Some(PieceView::Up)
    } else {
        Some(PieceView::Name(text))
    }
}

/// The pieces of a path from a place on.
pub open spec fn pieces_from(path: Seq<char>, verbatim: bool, from: int) -> Seq<PieceView>
    decreases path.len() + 1 - from,
{
    if from >= path.len() {
        Seq::empty()
    } else {
        proof {
            next_split_lies_ahead(path, verbatim, from);
        }
        let to = next_split(path, verbatim, from);
        let rest = pieces_from(path, verbatim, to + 1);
        match piece_of(path.subrange(from, to), verbatim) {
            Some(piece) => seq![piece] + rest,
            None => rest,
        }
    }
}

/// The pieces of a path behind its prefix.
pub open spec fn pieces_of(path: Seq<char>) -> Seq<PieceView> {
    let rest = pieces_from(path, is_verbatim(path), prefix_len(path) + root_len(path));
    if root_len(path) == 1 {
        seq![PieceView::Root] + rest
    } else {
        rest
    }
}

/// Pieces with one more followed: a root starts over, and two dots take back a
/// name.
pub open spec fn followed(pieces: Seq<PieceView>, piece: PieceView) -> Seq<PieceView> {
    match piece {
        PieceView::Root => seq![PieceView::Root],
        PieceView::Here => pieces,
        PieceView::Up => if pieces.len() > 0 && pieces.last() is Name {
            pieces.drop_last()
        } else {
            pieces
        },
        PieceView::Name(_) => pieces.push(piece),
    }
}

/// Pieces with more of them followed, one after another.
pub open spec fn followed_by(pieces: Seq<PieceView>, more: Seq<PieceView>) -> Seq<PieceView>
    decreases more.len(),
{
    if more.len() == 0 {
        pieces
    } else {
        followed(followed_by(pieces, more.drop_last()), more.last())
    }
}

/// How a piece is written.
pub open spec fn piece_text(piece: PieceView) -> Seq<char> {
    match piece {
        PieceView::Root => seq!['\\'],
        PieceView::Here => seq!['.'],
        PieceView::Up => seq!['.', '.'],
        PieceView::Name(text) => text,
    }
}

/// Pieces written out behind a prefix, with a separator wherever there is no
/// root to do for one.
pub open spec fn spelled(prefix: Seq<char>, pieces: Seq<PieceView>) -> Seq<char>
    decreases pieces.len(),
{
    if pieces.len() == 0 {
        prefix
    } else {
        let before = spelled(prefix, pieces.drop_last());
        let piece = pieces.last();
        if piece is Root || pieces.len() > 1 && pieces[pieces.len() - 2] is Root {
            before + piece_text(piece)
        } else {
            before + seq!['\\'] + piece_text(piece)
        }
    }
}

/// A path inside a directory. A path with a prefix of its own stands alone,
/// and one that starts at a root keeps only the directory's prefix. A verbatim
/// directory is written anew, since nobody will read the dots in it.
pub open spec fn under(dir: Seq<char>, path: Seq<char>) -> Seq<char> {
    if prefix_len(path) > 0 {
        path
    } else if is_verbatim(dir) && path.len() > 0 {
        spelled(dir.take(prefix_len(dir)), followed_by(pieces_of(dir), pieces_of(path)))
    } else if path.len() > 0 && separates(path[0]) {
        dir.take(prefix_len(dir)) + path
    } else if dir.len() == 0 || separates(dir.last()) || on_a_drive(dir) && dir.len() == 2 {
        dir + path
    } else {
        dir + seq!['\\'] + path
    }
}

/// Whether a character separates the parts of an ordinary path.
fn is_separator(c: char) -> (r: bool)
    ensures
        r == separates(c),
{
    c == '\\' || c == '/'
}

/// Whether a character separates the parts of a path.
fn is_split(c: char, verbatim: bool) -> (r: bool)
    ensures
        r == splits(c, verbatim),
{
    c == '\\' || c == '/' && !verbatim
}

/// The first separator from a place on, or the end.
fn find_split(path: &Vec<char>, verbatim: bool, from: usize) -> (r: usize)
    requires
        from <= path@.len(),
    ensures
        r == next_split(path@, verbatim, from as int),
        from <= r <= path@.len(),
{
    let mut at: usize = from;
    while at < path.len() && !is_split(path[at], verbatim)
        invariant
            from <= at <= path@.len(),
            next_split(path@, verbatim, from as int) == next_split(path@, verbatim, at as int),
        decreases path@.len() - at,
    {
        at += 1;
    }
    at
}

/// Whether a drive stands at a place.
fn is_drive_at(path: &Vec<char>, at: usize) -> (r: bool)
    requires
        at <= 4,
    ensures
        r == drive_at(path@, at as int),
{
    if path.len() < at + 2 || path[at + 1] != ':' {
        return false;
    }
    let c = crate::text::lower_char(path[at]);
    'a' <= c && c <= 'z'
}

/// Whether a path is verbatim.
fn find_verbatim(path: &Vec<char>) -> (r: bool)
    ensures
        r == is_verbatim(path@),
{
    path.len() >= 4 && path[0] == '\\' && path[1] == '\\' && path[2] == '?' && path[3] == '\\'
}

/// Where a share ends, behind the server that ends here.
fn find_share_end(path: &Vec<char>, verbatim: bool, server_end: usize) -> (r: usize)
    requires
        server_end <= path@.len(),
    ensures
        r == share_end(path@, verbatim, server_end as int),
        server_end <= r <= path@.len(),
{
    if server_end < path.len() && server_end + 1 < path.len() && !is_split(
        path[server_end + 1],
        verbatim,
    ) {
        find_split(path, verbatim, server_end + 1)
    } else {
        server_end
    }
}

/// How much of a path is its prefix.
fn find_prefix(path: &Vec<char>) -> (r: usize)
    ensures
        r == prefix_len(path@),
        r <= path@.len(),
{
    if find_verbatim(path) {
        if path.len() >= 8 && path[4] == 'U' && path[5] == 'N' && path[6] == 'C' && is_separator(
            path[7],
        ) {
            let server_end = find_split(path, true, 8);
            return find_share_end(path, true, server_end);
        }
        if is_drive_at(path, 4) && (path.len() == 6 || is_separator(path[6])) {
            return 6;
        }
        return find_split(path, true, 4);
    }
    if path.len() >= 2 && is_separator(path[0]) && is_separator(path[1]) {
        if path.len() >= 4 && path[2] == '.' && is_separator(path[3]) {
            return find_split(path, false, 4);
        }
        let server_end = find_split(path, false, 2);
        let end = find_share_end(path, false, server_end);
        if server_end > 2 && end > server_end {
            return end;
        }
        return 0;
    }
    if is_drive_at(path, 0) {
        2
    } else {
        0
    }
}

/// Whether the prefix of a path is a drive and nothing else.
fn is_on_a_drive(path: &Vec<char>) -> (r: bool)
    ensures
        r == on_a_drive(path@),
{
    !(path.len() >= 2 && is_separator(path[0]) && is_separator(path[1])) && is_drive_at(path, 0)
}

/// Whether a path has a root, behind a prefix of this length.
fn has_root(path: &Vec<char>, prefix: usize) -> (r: bool)
    requires
        prefix == prefix_len(path@),
        prefix <= path@.len(),
    ensures
        r == (root_len(path@) == 1),
        r ==> prefix < path.len(),
{
    prefix < path.len() && is_separator(path[prefix])
}

/// Where the parts of a path begin.
fn find_body(path: &Vec<char>) -> (r: usize)
    ensures
        r == body_start(path@),
        r <= path@.len(),
{
    let prefix = find_prefix(path);
    if has_root(path, prefix) {
        return prefix + 1;
    }
    if (prefix == 0 || is_on_a_drive(path)) && prefix < path.len() && path[prefix] == '.' && (
    path.len() - 1 == prefix || is_separator(path[prefix + 1])) {
        return prefix + 1;
    }
    prefix
}

/// Where the last part before a place begins.
fn find_part(path: &Vec<char>, verbatim: bool, start: usize, end: usize) -> (r: usize)
    requires
        start <= end <= path@.len(),
    ensures
        r == part_start(path@, verbatim, start as int, end as int),
        start <= r <= end,
{
    let mut at: usize = end;
    while at > start && !is_split(path[at - 1], verbatim)
        invariant
            start <= at <= end <= path@.len(),
            part_start(path@, verbatim, start as int, end as int) == part_start(
                path@,
                verbatim,
                start as int,
                at as int,
            ),
        decreases at - start,
    {
        at -= 1;
    }
    at
}

/// Where the last part that means something ends, or where the parts begin.
fn find_trimmed(path: &Vec<char>, verbatim: bool, start: usize, end: usize) -> (r: usize)
    requires
        start <= end <= path@.len(),
    ensures
        r == trimmed(path@, verbatim, start as int, end as int),
        start <= r <= end,
    decreases end - start,
{
    if end == start {
        return end;
    }
    let from = find_part(path, verbatim, start, end);
    if from == end || from == end - 1 && path[from] == '.' && !verbatim {
        let rest: usize = if from > start {
            from - 1
        } else {
            start
        };
        find_trimmed(path, verbatim, start, rest)
    } else {
        end
    }
}

/// Where the last part of a path begins and ends, and whether it is a name.
fn find_name(path: &Vec<char>) -> (r: (usize, usize, bool))
    ensures
        r.0 == name_start(path@),
        r.1 == name_end(path@),
        r.2 == is_named(path@),
        body_start(path@) <= r.0 <= r.1 <= path@.len(),
{
    let verbatim = find_verbatim(path);
    let start = find_body(path);
    let end = find_trimmed(path, verbatim, start, path.len());
    let from = find_part(path, verbatim, start, end);
    let one = end - from == 1 && path[from] == '.';
    let two = end - from == 2 && path[from] == '.' && path[from + 1] == '.';
    proof {
        let name = path@.subrange(from as int, end as int);
        assert(one <==> name == seq!['.']) by {
            if one {
                assert(name =~= seq!['.']);
            } else if name == seq!['.'] {
                assert(name.len() == 1);
                assert(name[0] == '.');
            }
        }
        assert(two <==> name == seq!['.', '.']) by {
            if two {
                assert(name =~= seq!['.', '.']);
            } else if name == seq!['.', '.'] {
                assert(name.len() == 2);
                assert(name[0] == '.' && name[1] == '.');
            }
        }
    }
    (from, end, end > start && !one && !two)
}

/// Where the name of a file ends without its extension.
fn find_stem_end(path: &Vec<char>, from: usize, to: usize) -> (r: usize)
    requires
        from == name_start(path@),
        to == name_end(path@),
        from <= to <= path@.len(),
    ensures
        r == stem_end(path@),
        from <= r <= to,
{
    let mut at: usize = to;
    while at > from && path[at - 1] != '.'
        invariant
            from <= at <= to <= path@.len(),
            last_dot(path@, from as int, to as int) == last_dot(path@, from as int, at as int),
        decreases at - from,
    {
        at -= 1;
    }
    if at > from && at - 1 > from {
        at - 1
    } else {
        to
    }
}

/// What a path lies in: all but its last part.
pub fn parent(path: &str) -> (r: Option<String>)
    ensures
        match r {
            Some(dir) => parent_of(path@) == Some(dir@),
            None => parent_of(path@) is None,
        },
{
    let chars = chars_of(path);
    let verbatim = find_verbatim(&chars);
    let start = find_body(&chars);
    let (from, end, _named) = find_name(&chars);
    if end > start {
        let rest: usize = if from > start {
            from - 1
        } else {
            start
        };
        let kept = find_trimmed(&chars, verbatim, start, rest);
        proof {
            assert(path@.subrange(0, kept as int) =~= path@.take(kept as int));
        }
        return Some(string_of(&part(&chars, 0, kept)));
    }
    let prefix = find_prefix(&chars);
    if prefix == 0 && start == 1 && !has_root(&chars, prefix) {
        let nothing: Vec<char> = Vec::new();
        let s = string_of(&nothing);
        proof {
            assert(s@ =~= Seq::<char>::empty());
        }
        return Some(s);
    }
    None
}

/// The name of a file without its extension.
pub fn file_stem(path: &str) -> (r: Option<String>)
    ensures
        match r {
            Some(stem) => stem_of(path@) == Some(stem@),
            None => stem_of(path@) is None,
        },
{
    let chars = chars_of(path);
    let (from, to, named) = find_name(&chars);
    if !named {
        return None;
    }
    let end = find_stem_end(&chars, from, to);
    Some(string_of(&part(&chars, from, end)))
}

/// The extension of a file's name, without its dot.
pub fn extension(path: &str) -> (r: Option<String>)
    ensures
        match r {
            Some(ext) => extension_of(path@) == Some(ext@),
            None => extension_of(path@) is None,
        },
{
    let chars = chars_of(path);
    let (from, to, named) = find_name(&chars);
    if !named {
        return None;
    }
    let end = find_stem_end(&chars, from, to);
    if end < to {
        Some(string_of(&part(&chars, end + 1, to)))
    } else {
        None
    }
}

/// A path with the name of its file exchanged for another.
pub fn with_file_name(path: &str, name: &str) -> (r: String)
    ensures
        r@ == renamed(path@, name@),
{
    let chars = chars_of(path);
    let (_from, _to, named) = find_name(&chars);
    if named {
        if let Some(dir) = parent(path) {
            return join(dir.as_str(), name);
        }
    }
    join(path, name)
}

/// A path with the extension of its file exchanged for another.
pub fn with_extension(path: &str, extension: &str) -> (r: String)
    requires
        forall|i: int| 0 <= i < extension@.len() ==> !separates(#[trigger] extension@[i]),
    ensures
        r@ == extended(path@, extension@),
{
    let chars = chars_of(path);
    let (from, to, named) = find_name(&chars);
    if !named {
        return path.to_owned();
    }
    let end = find_stem_end(&chars, from, to);
    let mut s = string_of(&part(&chars, 0, end));
    proof {
        assert(path@.subrange(0, end as int) =~= path@.take(end as int));
    }
    let letters = chars_of(extension);
    if letters.len() > 0 {
        s.push('.');
        s.append(extension);
        proof {
            assert(s@ =~= path@.take(end as int) + seq!['.'] + extension@);
        }
    }
    s
}

/// One part of a path, or its root.
#[derive(Debug)]
enum Piece {
    Root,
    Here,
    Up,
    Name(Vec<char>),
}

impl View for Piece {
    type V = PieceView;

    closed spec fn view(&self) -> PieceView {
        match self {
            Piece::Root => PieceView::Root,
            Piece::Here => PieceView::Here,
            Piece::Up => PieceView::Up,
            Piece::Name(text) => PieceView::Name(text@),
        }
    }
}

spec fn piece_views(pieces: Seq<Piece>) -> Seq<PieceView> {
    pieces.map_values(|p: Piece| p@)
}

/// What a part of a path is.
fn read_piece(text: Vec<char>, verbatim: bool) -> (r: Option<Piece>)
    ensures
        match r {
            Some(piece) => piece_of(text@, verbatim) == Some(piece@),
            None => piece_of(text@, verbatim) is None,
        },
{
    if text.len() == 0 {
        return None;
    }
    if text.len() == 1 && text[0] == '.' {
        proof {
            assert(text@ =~= seq!['.']);
        }
        if verbatim {
            return Some(Piece::Here);
        }
        return None;
    }
    if text.len() == 2 && text[0] == '.' && text[1] == '.' {
        proof {
            assert(text@ =~= seq!['.', '.']);
        }
        return Some(Piece::Up);
    }
    proof {
        if text@ == seq!['.'] {
            assert(text@[0] == '.');
        }
        if text@ == seq!['.', '.'] {
            assert(text@[0] == '.' && text@[1] == '.');
        }
    }
    Some(Piece::Name(text))
}

/// The pieces of a path behind its prefix.
fn read_pieces(path: &Vec<char>) -> (r: Vec<Piece>)
    ensures
        piece_views(r@) == pieces_of(path@),
{
    let verbatim = find_verbatim(path);
    let prefix = find_prefix(path);
    let mut r: Vec<Piece> = Vec::new();
    let mut at: usize = prefix;
    if has_root(path, prefix) {
        r.push(Piece::Root);
        at = prefix + 1;
    }
    proof {
        assert(piece_views(r@) + pieces_from(path@, verbatim, at as int) =~= pieces_of(path@));
    }
    while at < path.len()
        invariant
            at <= path@.len(),
            piece_views(r@) + pieces_from(path@, verbatim, at as int) == pieces_of(path@),
        decreases path@.len() - at,
    {
        let to = find_split(path, verbatim, at);
        let ghost before = r@;
        let ghost rest = pieces_from(path@, verbatim, to + 1);
        if let Some(piece) = read_piece(part(path, at, to), verbatim) {
            r.push(piece);
            proof {
                assert(piece_views(r@) =~= piece_views(before).push(piece@));
                assert(piece_views(r@) + rest =~= piece_views(before) + (seq![piece@] + rest));
            }
        }
        proof {
            assert(piece_views(r@) + rest == pieces_of(path@));
        }
        if to == path.len() {
            proof {
                assert(rest =~= Seq::<PieceView>::empty());
                assert(pieces_from(path@, verbatim, to as int) =~= Seq::<PieceView>::empty());
            }
            at = to;
        } else {
            at = to + 1;
        }
    }
    proof {
        assert(piece_views(r@) + Seq::<PieceView>::empty() =~= piece_views(r@));
    }
    r
}

/// Follows one more piece.
fn follow(pieces: &mut Vec<Piece>, piece: Piece)
    ensures
        piece_views(final(pieces)@) == followed(piece_views(old(pieces)@), piece@),
{
    let ghost before = pieces@;
    match piece {
        Piece::Root => {
            pieces.clear();
            pieces.push(Piece::Root);
            proof {
                assert(piece_views(pieces@) =~= seq![PieceView::Root]);
            }
        },
        Piece::Here => {},
        Piece::Up => {
            let n = pieces.len();
            let takes_back = n > 0 && matches!(pieces[n - 1], Piece::Name(_));
            if takes_back {
                pieces.pop();
                proof {
                    assert(piece_views(pieces@) =~= piece_views(before).drop_last());
                }
            }
        },
        Piece::Name(text) => {
            pieces.push(Piece::Name(text));
            proof {
                assert(piece_views(pieces@) =~= piece_views(before).push(piece@));
            }
        },
    }
}

/// Pieces written out behind a prefix.
fn spell(prefix: String, pieces: &Vec<Piece>) -> (r: String)
    ensures
        r@ == spelled(prefix@, piece_views(pieces@)),
{
    let ghost all = piece_views(pieces@);
    let ghost start = prefix@;
    let mut s = prefix;
    let mut rooted = false;
    let mut i: usize = 0;
    proof {
        assert(all.take(0) =~= Seq::<PieceView>::empty());
    }
    while i < pieces.len()
        invariant
            i <= pieces@.len(),
            all == piece_views(pieces@),
            s@ == spelled(start, all.take(i as int)),
            rooted == (i > 0 && all[i - 1] is Root),
        decreases pieces@.len() - i,
    {
        let ghost before = s@;
        let root = matches!(pieces[i], Piece::Root);
        if !root && !rooted {
            s.push('\\');
        }
        match &pieces[i] {
            Piece::Root => s.push('\\'),
            Piece::Here => s.push('.'),
            Piece::Up => {
                s.push('.');
                s.push('.');
            },
            Piece::Name(text) => {
                let text = string_of(text);
                s.append(text.as_str());
            },
        }
        proof {
            let now = all.take(i + 1);
            assert(now.drop_last() =~= all.take(i as int));
            assert(now.last() == all[i as int]);
            assert(all[i as int] == pieces@[i as int]@);
            if root || rooted {
                assert(s@ =~= before + piece_text(all[i as int]));
            } else {
                assert(s@ =~= before + seq!['\\'] + piece_text(all[i as int]));
            }
        }
        rooted = root;
        i += 1;
    }
    proof {
        assert(all.take(i as int) =~= all);
    }
    s
}

/// A path inside a verbatim directory, written anew.
fn join_verbatim(dir: &Vec<char>, path: &Vec<char>) -> (r: String)
    ensures
        r@ == spelled(
            dir@.take(prefix_len(dir@)),
            followed_by(pieces_of(dir@), pieces_of(path@)),
        ),
{
    let prefix = find_prefix(dir);
    let mut pieces = read_pieces(dir);
    let mut more = read_pieces(path);
    let ghost first = piece_views(pieces@);
    let ghost all = piece_views(more@);
    let total: usize = more.len();
    let mut followed_so_far: usize = 0;
    proof {
        assert(all.take(0) =~= Seq::<PieceView>::empty());
        assert(all.skip(0) =~= all);
    }
    while more.len() > 0
        invariant
            followed_so_far + more@.len() == total,
            all.len() == total,
            piece_views(more@) == all.skip(followed_so_far as int),
            piece_views(pieces@) == followed_by(first, all.take(followed_so_far as int)),
        decreases more@.len(),
    {
        let ghost before = more@;
        let piece = more.remove(0);
        proof {
            assert(piece_views(before)[0] == piece@);
            assert(piece@ == all[followed_so_far as int]);
            assert(piece_views(more@) =~= all.skip(followed_so_far + 1)) by {
                assert forall|i: int| 0 <= i < more@.len() implies #[trigger] piece_views(more@)[i]
                    == all.skip(followed_so_far + 1)[i] by {
                    assert(more@[i] == before[i + 1]);
                    assert(piece_views(before)[i + 1] == all.skip(followed_so_far as int)[i + 1]);
                }
            }
            let now = all.take(followed_so_far + 1);
            assert(now.drop_last() =~= all.take(followed_so_far as int));
            assert(now.last() == piece@);
        }
        follow(&mut pieces, piece);
        followed_so_far += 1;
    }
    proof {
        assert(all.take(followed_so_far as int) =~= all);
        assert(dir@.subrange(0, prefix as int) =~= dir@.take(prefix as int));
    }
    spell(string_of(&part(dir, 0, prefix)), &pieces)
}

/// A path inside a directory.
pub fn join(dir: &str, path: &str) -> (r: String)
    ensures
        r@ == under(dir@, path@),
{
    let d = chars_of(dir);
    let p = chars_of(path);
    if find_prefix(&p) > 0 {
        return path.to_owned();
    }
    if find_verbatim(&d) && p.len() > 0 {
        return join_verbatim(&d, &p);
    }
    if p.len() > 0 && is_separator(p[0]) {
        let prefix = find_prefix(&d);
        let mut s = string_of(&part(&d, 0, prefix));
        s.append(path);
        proof {
            assert(dir@.subrange(0, prefix as int) =~= dir@.take(prefix as int));
        }
        return s;
    }
    let mut s = dir.to_owned();
    let bare = d.len() == 2 && is_on_a_drive(&d);
    if !(d.len() == 0 || is_separator(d[d.len() - 1]) || bare) {
        s.push('\\');
        proof {
            assert(dir@.push('\\') == dir@ + seq!['\\']);
        }
    }
    s.append(path);
    s
}

/// Whether a directory is named in full: a drive, a separator, and a last part
/// that does not end in a dot.
pub open spec fn full_directory(dir: Seq<char>) -> bool {
    &&& dir.len() > 3
    &&& ('a' <= dir[0] && dir[0] <= 'z') || ('A' <= dir[0] && dir[0] <= 'Z')
    &&& dir[1] == ':'
    &&& dir[2] == '\\' || dir[2] == '/'
    &&& dir.last() != '\\' && dir.last() != '/' && dir.last() != '.'
}

/// Whether text is a plain name of a file: not empty, no separator and no
/// colon in it, and neither of the names made of dots.
pub open spec fn plain_name(name: Seq<char>) -> bool {
    &&& name.len() > 0
    &&& forall|i: int|
        0 <= i < name.len() ==> #[trigger] name[i] != '\\' && name[i] != '/' && name[i] != ':'
    &&& name != seq!['.']
    &&& name != seq!['.', '.']
}

proof fn a_part_starts_behind_its_separator(
    path: Seq<char>,
    verbatim: bool,
    start: int,
    from: int,
    end: int,
)
    requires
        start <= from <= end <= path.len(),
        0 <= start,
        from == start || splits(path[from - 1], verbatim),
        forall|i: int| from <= i < end ==> !splits(#[trigger] path[i], verbatim),
    ensures
        part_start(path, verbatim, start, end) == from,
    decreases end - from,
{
    if end > from {
        assert(!splits(path[end - 1], verbatim));
        a_part_starts_behind_its_separator(path, verbatim, start, from, end - 1);
    }
}

proof fn a_part_that_does_not_end_in_a_dot_stays(
    path: Seq<char>,
    verbatim: bool,
    start: int,
    end: int,
)
    requires
        0 <= start < end <= path.len(),
        path[end - 1] != '.',
        !splits(path[end - 1], verbatim),
    ensures
        trimmed(path, verbatim, start, end) == end,
{
    part_start_lies_between(path, verbatim, start, end);
    part_start_lies_between(path, verbatim, start, end - 1);
}

/// A file in a directory goes by its name: the name and the directory are got
/// back from the path, putting the one under the other makes the path, and
/// exchanging the name keeps the directory.
pub proof fn a_file_goes_by_its_name(dir: Seq<char>, name: Seq<char>, other: Seq<char>)
    requires
        full_directory(dir),
        plain_name(name),
        plain_name(other),
    ensures
        ({
            let path = dir + seq!['\\'] + name;
            &&& under(dir, name) == path
            &&& file_name(path) == Some(name)
            &&& parent_of(path) == Some(dir)
            &&& renamed(path, other) == dir + seq!['\\'] + other
        }),
{
    let path = dir + seq!['\\'] + name;
    let from = dir.len() + 1;
    let end = path.len() as int;
    assert(path[0] == dir[0] && path[1] == ':' && path[2] == dir[2]);
    assert(path[dir.len() as int] == '\\');
    assert(!is_verbatim(path) && !begins_twice(path));
    assert(drive_at(path, 0));
    assert(prefix_len(path) == 2 && root_len(path) == 1 && here_len(path) == 0);
    assert(body_start(path) == 3);
    assert forall|i: int| from <= i < end implies !splits(#[trigger] path[i], false) by {
        assert(path[i] == name[i - from]);
    }
    a_part_starts_behind_its_separator(path, false, 3, from as int, end);
    assert(path.subrange(from as int, end) =~= name);
    if end == from + 1 && path[from as int] == '.' {
        assert(name =~= seq!['.']);
    }
    assert(!means_nothing(path, false, from as int, end));
    assert(name_end(path) == end);
    assert(name_start(path) == from);
    assert(path[dir.len() - 1] == dir.last());
    a_part_that_does_not_end_in_a_dot_stays(path, false, 3, dir.len() as int);
    assert(path.take(dir.len() as int) =~= dir);
    no_prefix_in_a_plain_name(name);
    no_prefix_in_a_plain_name(other);
    assert(dir[0] == path[0] && !is_verbatim(dir) && !begins_twice(dir));
}

proof fn no_prefix_in_a_plain_name(name: Seq<char>)
    requires
        plain_name(name),
    ensures
        prefix_len(name) == 0,
        !separates(name[0]),
{
    assert(name[0] != '\\' && name[0] != '/');
    if name.len() >= 2 {
        assert(name[1] != ':');
    }
}

proof fn where_the_last_dot_is(path: Seq<char>, from: int, dot: int, to: int)
    requires
        0 <= from <= dot < to <= path.len(),
        path[dot] == '.',
        forall|i: int| dot < i < to ==> #[trigger] path[i] != '.',
    ensures
        last_dot(path, from, to) == dot,
    decreases to - dot,
{
    if to - 1 > dot {
        assert(path[to - 1] != '.');
        where_the_last_dot_is(path, from, dot, to - 1);
    }
}

/// A file's name is its stem and its extension, with the last dot between
/// them; exchanging the extension keeps the stem.
pub proof fn a_name_is_its_stem_and_its_extension(
    dir: Seq<char>,
    stem: Seq<char>,
    extension: Seq<char>,
    other: Seq<char>,
)
    requires
        full_directory(dir),
        stem.len() > 0,
        other.len() > 0,
        plain_name(stem + seq!['.'] + extension),
        forall|i: int| 0 <= i < extension.len() ==> #[trigger] extension[i] != '.',
    ensures
        ({
            let path = dir + seq!['\\'] + (stem + seq!['.'] + extension);
            &&& stem_of(path) == Some(stem)
            &&& extension_of(path) == Some(extension)
            &&& extended(path, other) == dir + seq!['\\'] + (stem + seq!['.'] + other)
        }),
{
    let name = stem + seq!['.'] + extension;
    let path = dir + seq!['\\'] + name;
    let from = dir.len() + 1;
    let dot = from + stem.len();
    let end = path.len() as int;
    a_file_goes_by_its_name(dir, name, name);
    file_name_places(dir, name);
    assert(path[dot as int] == '.');
    assert forall|i: int| dot < i < end implies #[trigger] path[i] != '.' by {
        assert(path[i] == extension[i - dot - 1]);
    }
    where_the_last_dot_is(path, from as int, dot as int, end);
    assert(path.subrange(from as int, dot as int) =~= stem);
    assert(path.subrange(dot as int + 1, end) =~= extension);
    assert(path.take(dot as int) + seq!['.'] + other =~= dir + seq!['\\'] + (stem + seq!['.']
        + other));
}

proof fn file_name_places(dir: Seq<char>, name: Seq<char>)
    requires
        full_directory(dir),
        plain_name(name),
    ensures
        ({
            let path = dir + seq!['\\'] + name;
            &&& name_start(path) == dir.len() + 1
            &&& name_end(path) == path.len()
            &&& is_named(path)
        }),
{
    let path = dir + seq!['\\'] + name;
    let from = dir.len() + 1;
    let end = path.len() as int;
    assert(path[0] == dir[0] && path[1] == ':' && path[2] == dir[2]);
    assert(path[dir.len() as int] == '\\');
    assert(!is_verbatim(path) && !begins_twice(path));
    assert(drive_at(path, 0));
    assert(body_start(path) == 3);
    assert forall|i: int| from <= i < end implies !splits(#[trigger] path[i], false) by {
        assert(path[i] == name[i - from]);
    }
    a_part_starts_behind_its_separator(path, false, 3, from as int, end);
    assert(path.subrange(from as int, end) =~= name);
    if end == from + 1 && path[from as int] == '.' {
        assert(name =~= seq!['.']);
    }
}

} // verus!
