//! From a chunk's grid index to the path of its file.
//!
//! The key of a chunk is the `zarrs` crate's: its default chunk key encoding
//! of the grid index, put behind the array's node path. The path of the
//! chunk's file is the store's root directory extended by that key.

use vstd::prelude::*;
use zarrs::array::chunk_key_encoding::{ChunkKeyEncodingTraits, DefaultChunkKeyEncoding};
use zarrs::node::{data_key, NodePath};
use zarrs::storage::StoreKey;

verus! {

/// The text that the default chunk key encoding of `zarrs` gives for a grid
/// index.
pub uninterp spec fn default_chunk_key_text(chunk_indices: Seq<u64>) -> Seq<char>;

/// Whether `text` has two separators in a row.
pub open spec fn has_empty_segment(text: Seq<char>) -> bool {
    exists|i: int| 0 <= i && i + 1 < text.len() && text[i] == '/' && #[trigger] text[i + 1] == '/'
}

/// The node paths that `zarrs` accepts: the root `/`, or a path that starts
/// with a separator, does not end with one and has no empty segment.
pub open spec fn valid_node_path(path: Seq<char>) -> bool {
    path == seq!['/'] || (path.len() > 0 && path[0] == '/' && path.last() != '/'
        && !has_empty_segment(path))
}

/// The store keys that `zarrs` accepts: not empty, no separator at either
/// end, no empty segment.
pub open spec fn valid_store_key(key: Seq<char>) -> bool {
    key.len() > 0 && key[0] != '/' && key.last() != '/' && !has_empty_segment(key)
}

/// `text` without one leading separator, if it has one.
pub open spec fn strip_leading_separator(text: Seq<char>) -> Seq<char> {
    if text.len() > 0 && text[0] == '/' {
        text.skip(1)
    } else {
        text
    }
}

/// The data key of a chunk: the node path without its leading separator,
/// then a separator and the chunk key; for the root node the chunk key alone.
pub open spec fn data_key_text(node_path: Seq<char>, chunk_key: Seq<char>) -> Seq<char> {
    let below_root = strip_leading_separator(node_path);
    if below_root.len() == 0 {
        chunk_key
    } else {
        below_root + seq!['/'] + chunk_key
    }
}

/// The key under which the chunk with grid index `chunk_indices` of the array
/// at `array_path` is stored, or `None` where `zarrs` refuses the path or the
/// chunk key.
pub open spec fn chunk_data_key(array_path: Seq<char>, chunk_indices: Seq<u64>) -> Option<
    Seq<char>,
> {
    let chunk_key = default_chunk_key_text(chunk_indices);
    if valid_node_path(array_path) && valid_store_key(chunk_key) {
        Some(data_key_text(array_path, chunk_key))
    } else {
        None
    }
}

/// `base` extended by `relative` as a path is on Unix: an absolute
/// `relative` takes the place of `base`; otherwise a separator is put between
/// the two unless `base` is empty or ends with one.
pub open spec fn path_push(base: Seq<char>, relative: Seq<char>) -> Seq<char> {
    if relative.len() > 0 && relative[0] == '/' {
        relative
    } else if base.len() > 0 && base.last() != '/' {
        base + seq!['/'] + relative
    } else {
        base + relative
    }
}

/// The path of the file that holds `key` in the store rooted at `root`: the
/// root itself for the empty key, else the root extended by the key without
/// its leading separator.
pub open spec fn fspath_text(root: Seq<char>, key: Seq<char>) -> Seq<char> {
    if key.len() == 0 {
        root
    } else {
        path_push(root, strip_leading_separator(key))
    }
}

/// `encode` of the `DefaultChunkKeyEncoding` of `zarrs` with its default
/// separator: the chunk key of a grid index. The text is a function of the
/// index alone; what it is, is left to `zarrs`.
#[verifier::external_body]
pub(crate) fn default_chunk_key(chunk_indices: &[u64]) -> (key: String)
    ensures
        key@ == default_chunk_key_text(chunk_indices@),
{
    DefaultChunkKeyEncoding::default().encode(chunk_indices).as_str().to_string()
}

/// `data_key` of `zarrs`, on a node path and a chunk key given as text.
/// `NodePath::new` and `StoreKey::new` refuse a text that is not valid, which
/// gives `None`; on valid texts the key is the node path without its leading
/// separator, a separator and the chunk key, or the chunk key alone for the
/// root.
#[verifier::external_body]
pub(crate) fn node_data_key(node_path: &str, chunk_key: &str) -> (key: Option<String>)
    ensures
        match key {
            Some(text) => {
                &&& valid_node_path(node_path@)
                &&& valid_store_key(chunk_key@)
                &&& text@ == data_key_text(node_path@, chunk_key@)
            },
            None => !(valid_node_path(node_path@) && valid_store_key(chunk_key@)),
        },
{
    match (NodePath::new(node_path), StoreKey::new(chunk_key)) {
        (Ok(path), Ok(chunk)) => Some(data_key(&path, &chunk).as_str().to_string()),
        _ => None,
    }
}

/// The store key of the chunk with grid index `chunk_indices` of the array at
/// `array_path`.
pub fn resolve(array_path: &str, chunk_indices: &[u64]) -> (key: Option<String>)
    ensures
        match key {
            Some(text) => chunk_data_key(array_path@, chunk_indices@) == Some(text@),
            None => chunk_data_key(array_path@, chunk_indices@) is None,
        },
{
    let chunk_key = default_chunk_key(chunk_indices);
    node_data_key(array_path, chunk_key.as_str())
}

/// The path of the file that holds `key` in the store rooted at `save_path`.
pub fn key_to_fspath(save_path: &str, key: &str) -> (path: String)
    ensures
        path@ == fspath_text(save_path@, key@),
{
    proof {
        reveal_strlit("/");
    }
    let key_len: usize = key.unicode_len();
    if key_len == 0 {
        return String::from_str(save_path);
    }
    let relative: &str = if key.get_char(0) == '/' {
        key.substring_char(1, key_len)
    } else {
        key
    };
    assert(relative@ == strip_leading_separator(key@));
    let relative_len: usize = relative.unicode_len();
    if relative_len > 0 && relative.get_char(0) == '/' {
        return String::from_str(relative);
    }
    let base_len: usize = save_path.unicode_len();
    let mut path = String::from_str(save_path);
    if base_len > 0 && save_path.get_char(base_len - 1) != '/' {
        path.append("/");
        assert("/"@ == seq!['/']);
    }
    path.append(relative);
    path
}

/// The key of a chunk never leaves the store: for a node path and a chunk key
/// that `zarrs` accepts, the data key is not empty and does not start with a
/// separator, so the file's path is the root, a separator where the root
/// lacks one, and the key.
pub proof fn lemma_data_key_stays_below_root(
    root: Seq<char>,
    node_path: Seq<char>,
    chunk_key: Seq<char>,
)
    requires
        valid_node_path(node_path),
        valid_store_key(chunk_key),
    ensures
        data_key_text(node_path, chunk_key).len() > 0,
        data_key_text(node_path, chunk_key)[0] != '/',
        fspath_text(root, data_key_text(node_path, chunk_key)) == if root.len() > 0 && root.last()
            != '/' {
            root + seq!['/'] + data_key_text(node_path, chunk_key)
        } else {
            root + data_key_text(node_path, chunk_key)
        },
{
    let below_root = strip_leading_separator(node_path);
    if below_root.len() > 0 {
        assert(node_path != seq!['/']);
        assert(below_root[0] == node_path[0int + 1]);
        assert(!has_empty_segment(node_path));
        assert(node_path[0] == '/');
    }
}

} // verus!
