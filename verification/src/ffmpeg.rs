//! Locating the encoder binaries: the optional override directory and
//! the paths of the `ffmpeg` and `ffprobe` programs under it.

use vstd::prelude::*;

verus! {

/// The directory the encoder binaries live in, when overridden; with no
/// override the bare program names are used and the system path decides.
#[derive(Debug, Clone)]
pub struct Ffmpeg {
    path: Option<String>,
}

impl View for Ffmpeg {
    type V = Option<Seq<char>>;

    closed spec fn view(&self) -> Option<Seq<char>> {
        match self.path {
            Some(ref p) => Some(p@),
            None => None,
        }
    }
}

/// A program's path under the optional directory: the bare name without
/// one; otherwise the directory, a separator unless it already ends in
/// one, and the name.
pub open spec fn joined_path(dir: Option<Seq<char>>, name: Seq<char>) -> Seq<char> {
    match dir {
        None => name,
        Some(p) => if p.len() == 0 {
            name
        } else if p.last() == '/' {
            p + name
        } else {
            p + seq!['/'] + name
        },
    }
}

impl Ffmpeg {
    /// Encoder binaries resolved through the system path.
    pub fn new() -> (r: Ffmpeg)
        ensures
            r@ is None,
    {
        Ffmpeg { path: None }
    }

    /// Encoder binaries under the given directory.
    pub fn new_with_path(p: String) -> (r: Ffmpeg)
        ensures
            r@ == Some(p@),
    {
        Ffmpeg { path: Some(p) }
    }

    /// The path of the program `n` under this configuration.
    fn path_for_name(&self, n: &str) -> (r: String)
        ensures
            r@ == joined_path(self@, n@),
    {
        match &self.path {
            Some(p) => {
                let len: usize = p.as_str().unicode_len();
                if len == 0 {
                    let mut out = String::new();
                    out.append(n);
                    proof {
                        assert(out@ =~= joined_path(self@, n@));
                    }
                    out
                } else if p.as_str().get_char(len - 1) == '/' {
                    let mut out = String::new();
                    out.append(p.as_str());
                    out.append(n);
                    proof {
                        assert(out@ =~= joined_path(self@, n@));
                    }
                    out
                } else {
                    let mut out = String::new();
                    out.append(p.as_str());
                    out.append("/");
                    out.append(n);
                    proof {
                        reveal_strlit("/");
                        assert("/"@ =~= seq!['/']);
                        assert(out@ =~= joined_path(self@, n@));
                    }
                    out
                }
            },
            None => {
                let mut out = String::new();
                out.append(n);
                proof {
                    assert(out@ =~= joined_path(self@, n@));
                }
                out
            },
        }
    }

    /// Where the `ffprobe` program stands.
    pub fn ffprobe(&self) -> (r: String)
        ensures
            r@ == joined_path(self@, "ffprobe"@),
    {
        self.path_for_name("ffprobe")
    }

    /// Where the `ffmpeg` program stands.
    pub fn ffmpeg(&self) -> (r: String)
        ensures
            r@ == joined_path(self@, "ffmpeg"@),
    {
        self.path_for_name("ffmpeg")
    }
}

} // verus!
