//! Tracks and the catalog built from a directory listing.
//!
//! Archived audio files are named `"<id> <title>.m4a"`: the display name of a
//! track is its title, the text between the first space and the extension.

use vstd::prelude::*;

verus! {

/// The extension of the audio container the catalog holds.
pub open spec fn extension() -> Seq<char> {
    seq!['.', 'm', '4', 'a']
}

/// Whether a file name names a file of the supported container.
pub open spec fn is_track_file(file_name: Seq<char>) -> bool {
    file_name.len() >= extension().len()
        && file_name.subrange(file_name.len() - extension().len(), file_name.len() as int)
        == extension()
}

/// Whether `i` is the position of the first space in `s`.
pub open spec fn is_first_space(s: Seq<char>, i: int) -> bool {
    &&& 0 <= i < s.len()
    &&& s[i] == ' '
    &&& forall|j: int| 0 <= j < i ==> s[j] != ' '
}

/// The position of the first space in `s` (meaningful when there is one).
pub open spec fn first_space(s: Seq<char>) -> int {
    choose|i: int| is_first_space(s, i)
}

/// Whether a display name can be derived from `file_name`: it holds a space,
/// and at least an extension's length of text follows the first one.
pub open spec fn has_display_name(file_name: Seq<char>) -> bool {
    exists|i: int|
        is_first_space(file_name, i) && file_name.len() - (i + 1) >= extension().len()
}

/// The display name: what follows the first space, without the extension.
pub open spec fn display_name(file_name: Seq<char>) -> Seq<char> {
    file_name.subrange(first_space(file_name) + 1, file_name.len() - extension().len())
}

proof fn lemma_first_space_unique(s: Seq<char>, i: int)
    requires
        is_first_space(s, i),
    ensures
        first_space(s) == i,
{
    let k = first_space(s);
    assert(is_first_space(s, k));
    if k < i {
        assert(s[k] != ' ');
    } else if i < k {
        assert(s[i] != ' ');
    }
}

/// One playable file: where it lies and its file name.
#[derive(Debug)]
pub struct Song {
    file: String,
    file_name: String,
}

impl Clone for Song {
    fn clone(&self) -> (r: Song)
        ensures
            r == *self,
    {
        Song { file: self.file.clone(), file_name: self.file_name.clone() }
    }
}

impl Song {
    /// The path of the file, as handed to `new`.
    pub closed spec fn path_view(&self) -> Seq<char> {
        self.file@
    }

    /// The last component of the path, as handed to `new`.
    pub closed spec fn file_name_view(&self) -> Seq<char> {
        self.file_name@
    }

    /// A track for the file at `file`, whose last path component is `file_name`.
    pub fn new(file: String, file_name: String) -> (r: Song)
        ensures
            r.path_view() == file@,
            r.file_name_view() == file_name@,
    {
        Song { file, file_name }
    }

    pub fn path(&self) -> (r: &str)
        ensures
            r@ == self.path_view(),
    {
        self.file.as_str()
    }

    pub fn file_name(&self) -> (r: &str)
        ensures
            r@ == self.file_name_view(),
    {
        self.file_name.as_str()
    }

    /// Whether the file is of the supported container.
    pub fn is_track(&self) -> (r: bool)
        ensures
            r == is_track_file(self.file_name_view()),
    {
        let s = self.file_name.as_str();
        let n = s.unicode_len();
        if n < 4 {
            return false;
        }
        let ok = s.get_char(n - 4) == '.' && s.get_char(n - 3) == 'm' && s.get_char(n - 2) == '4'
            && s.get_char(n - 1) == 'a';
        proof {
            let tail = s@.subrange(n - 4, n as int);
            if ok {
                assert(tail =~= extension());
            } else {
                assert(tail != extension()) by {
                    if tail == extension() {
                        assert(tail[0] == s@[n - 4]);
                        assert(tail[1] == s@[n - 3]);
                        assert(tail[2] == s@[n - 2]);
                        assert(tail[3] == s@[n - 1]);
                    }
                }
            }
        }
        ok
    }

    /// Whether `name` can be called on this track.
    pub fn has_name(&self) -> (r: bool)
        ensures
            r == has_display_name(self.file_name_view()),
    {
        let s = self.file_name.as_str();
        let n = s.unicode_len();
        match first_space_of(s) {
            Some(i) => {
                proof {
                    if has_display_name(s@) {
                        let j = choose|j: int|
                            is_first_space(s@, j) && s@.len() - (j + 1) >= extension().len();
                        lemma_first_space_unique(s@, j);
                        lemma_first_space_unique(s@, i as int);
                    }
                }
                n - (i + 1) >= 4
            },
            None => false,
        }
    }

    /// The display name: the title between the leading identifier and the extension.
    pub fn name(&self) -> (r: String)
        requires
            has_display_name(self.file_name_view()),
        ensures
            r@ == display_name(self.file_name_view()),
    {
        let s = self.file_name.as_str();
        let n = s.unicode_len();
        let ghost j = choose|j: int|
            is_first_space(s@, j) && s@.len() - (j + 1) >= extension().len();
        let i = match first_space_of(s) {
            Some(i) => i,
            None => {
                proof {
                    assert(s@[j] == ' ');
                }
                0
            },
        };
        proof {
            lemma_first_space_unique(s@, j);
            lemma_first_space_unique(s@, i as int);
        }
        s.substring_char(i + 1, n - 4).to_owned()
    }

    /// The tracks among `entries`: those whose file is of the supported
    /// container, in their order.
    pub fn catalog(entries: &Vec<Song>) -> (r: Vec<Song>)
        ensures
            r@ == entries@.filter(|s: Song| is_track_file(s.file_name_view())),
    {
        let ghost keep: spec_fn(Song) -> bool = |s: Song| is_track_file(s.file_name_view());
        let mut r: Vec<Song> = Vec::new();
        let mut i: usize = 0;
        while i < entries.len()
            invariant
                keep == (|s: Song| is_track_file(s.file_name_view())),
                i <= entries@.len(),
                r@ == entries@.subrange(0, i as int).filter(keep),
            decreases entries@.len() - i,
        {
            let ghost before = entries@.subrange(0, i as int);
            let ghost after = entries@.subrange(0, i + 1);
            proof {
                assert(after.drop_last() =~= before);
                assert(after.last() == entries@[i as int]);
                reveal(Seq::filter);
                assert(after.filter(keep) == if keep(entries@[i as int]) {
                    before.filter(keep).push(entries@[i as int])
                } else {
                    before.filter(keep)
                });
            }
            if entries[i].is_track() {
                r.push(entries[i].clone());
            }
            i += 1;
        }
        proof {
            assert(entries@.subrange(0, entries@.len() as int) =~= entries@);
        }
        r
    }
}

/// The position of the first space in `s`, if there is one.
fn first_space_of(s: &str) -> (r: Option<usize>)
    ensures
        r matches Some(i) ==> is_first_space(s@, i as int),
        r is None ==> forall|j: int| 0 <= j < s@.len() ==> s@[j] != ' ',
{
    let n = s.unicode_len();
    let mut i: usize = 0;
    while i < n
        invariant
            n == s@.len(),
            i <= n,
            forall|j: int| 0 <= j < i ==> s@[j] != ' ',
        decreases n - i,
    {
        if s.get_char(i) == ' ' {
            return Some(i);
        }
        i += 1;
    }
    None
}

} // verus!
