use vstd::prelude::*;

use crate::status::{basename, basename_of, last_index};
use crate::text::{chars_of, same_text};

verus! {

/// A path without its trailing slashes.
pub open spec fn trim_slashes(s: Seq<char>) -> Seq<char>
    decreases s.len(),
{
    if s.len() > 0 && s.last() == '/' {
        trim_slashes(s.drop_last())
    } else {
        s
    }
}

/// The extension of the last component of a path (trailing slashes
/// ignored): what follows its last `.`, unless that `.` starts the name or
/// the name is `..`.
pub open spec fn extension(name: Seq<char>) -> Option<Seq<char>> {
    let f = basename(trim_slashes(name));
    let k = last_index(f, '.');
    if k <= 0 || f == seq!['.', '.'] {
        None
    } else {
        Some(f.subrange(k + 1, f.len() as int))
    }
}

/// Icon of a directory with this name.
pub open spec fn dir_icon(name: Seq<char>) -> Seq<char> {
    if name == "src"@ {
        "\u{f121}"@
    } else if name == "tests"@ {
        "\u{f0c3}"@
    } else if name == "build"@ || name == "dist"@ || name == "target"@ {
        "\u{f1b3}"@
    } else if name == "docs"@ {
        "\u{f02d}"@
    } else if name == "config"@ {
        "\u{f013}"@
    } else if name == "scripts"@ {
        "\u{f120}"@
    } else if name == "assets"@ {
        "\u{f1c5}"@
    } else if name == ".git"@ {
        "\u{e702}"@
    } else if name == ".github"@ {
        "\u{e709}"@
    } else {
        "\u{f115}"@
    }
}

/// Icon of a file with this extension.
pub open spec fn ext_icon(ext: Seq<char>) -> Seq<char> {
    if ext == "rs"@ {
        "\u{e7a8}"@
    } else if ext == "toml"@ {
        "\u{f013}"@
    } else if ext == "md"@ {
        "\u{e73e}"@
    } else if ext == "json"@ {
        "\u{eb0f}"@
    } else if ext == "yml"@ || ext == "yaml"@ {
        "\u{e8eb}"@
    } else if ext == "lock"@ {
        "\u{f023}"@
    } else if ext == "sh"@ {
        "\u{e795}"@
    } else if ext == "py"@ {
        "\u{e73c}"@
    } else if ext == "js"@ {
        "\u{e781}"@
    } else if ext == "ts"@ {
        "\u{e8ca}"@
    } else if ext == "go"@ {
        "\u{e724}"@
    } else if ext == "rb"@ {
        "\u{e739}"@
    } else if ext == "java"@ {
        "\u{e738}"@
    } else if ext == "c"@ {
        "\u{e61e}"@
    } else if ext == "cpp"@ {
        "\u{e61d}"@
    } else if ext == "swift"@ {
        "\u{e755}"@
    } else if ext == "kt"@ {
        "\u{e81b}"@
    } else if ext == "css"@ {
        "\u{e749}"@
    } else if ext == "html"@ {
        "\u{e736}"@
    } else if ext == "sql"@ {
        "\u{f1c0}"@
    } else if ext == "png"@ || ext == "jpg"@ || ext == "jpeg"@ || ext == "gif"@ || ext == "svg"@ {
        "\u{f1c5}"@
    } else {
        "\u{f15b}"@
    }
}

/// Icon of a file with this name.
pub open spec fn file_icon(name: Seq<char>) -> Seq<char> {
    if name == "LICENSE"@ {
        "\u{eb12}"@
    } else if name == "Makefile"@ {
        "\u{eb6d}"@
    } else if name == "Dockerfile"@ {
        "\u{e7b0}"@
    } else if name == "Cargo.toml"@ {
        "\u{e7a8}"@
    } else if name == "package.json"@ {
        "\u{e71e}"@
    } else if name == ".env"@ {
        "\u{f084}"@
    } else if name == ".gitignore"@ {
        "\u{e702}"@
    } else {
        match extension(name) {
            Some(e) => ext_icon(e),
            None => "\u{f15b}"@,
        }
    }
}

/// Icon of an entry with this name.
pub open spec fn icon_for(name: Seq<char>, is_dir: bool) -> Seq<char> {
    if is_dir {
        dir_icon(name)
    } else {
        file_icon(name)
    }
}

fn last_dot(v: &Vec<char>) -> (r: usize)
    ensures
        r as int == last_index(v@, '.') + 1,
        r <= v.len(),
{
    let mut i = v.len();
    assert(v@.subrange(0, v.len() as int) =~= v@);
    while i > 0
        invariant
            i <= v.len(),
            last_index(v@, '.') == last_index(v@.subrange(0, i as int), '.'),
        decreases i,
    {
        assert(v@.subrange(0, i as int).drop_last() =~= v@.subrange(0, i - 1));
        if v[i - 1] == '.' {
            return i;
        }
        i -= 1;
    }
    i
}

/// The extension of a name, when it has one.
pub fn extension_of(name: &str) -> (r: Option<String>)
    ensures
        match r {
            Some(s) => extension(name@) == Some(s@),
            None => extension(name@).is_none(),
        },
{
    let all = chars_of(name);
    let mut end = all.len();
    assert(all@.subrange(0, end as int) =~= all@);
    while end > 0 && all[end - 1] == '/'
        invariant
            end <= all.len(),
            trim_slashes(all@) == trim_slashes(all@.subrange(0, end as int)),
        decreases end,
    {
        assert(all@.subrange(0, end as int).drop_last() =~= all@.subrange(0, end - 1));
        end -= 1;
    }
    let v = crate::status::sub_chars(&all, 0, end);
    assert(trim_slashes(v@) == v@);
    let f = basename_of(&v);
    let k = last_dot(&f);
    let dots = f.len() == 2 && f[0] == '.' && f[1] == '.';
    assert(dots == (f@ == seq!['.', '.'])) by {
        if f@.len() == 2 && f@[0] == '.' && f@[1] == '.' {
            assert(f@ =~= seq!['.', '.']);
        }
    }
    if k <= 1 || dots {
        None
    } else {
        Some(crate::text::string_of(&f, k, f.len()))
    }
}

fn ext_icon_of(e: &str) -> (r: &'static str)
    ensures
        r@ == ext_icon(e@),
{
    if same_text(e, "rs") {
        "\u{e7a8}"
    } else if same_text(e, "toml") {
        "\u{f013}"
    } else if same_text(e, "md") {
        "\u{e73e}"
    } else if same_text(e, "json") {
        "\u{eb0f}"
    } else if same_text(e, "yml") || same_text(e, "yaml") {
        "\u{e8eb}"
    } else if same_text(e, "lock") {
        "\u{f023}"
    } else if same_text(e, "sh") {
        "\u{e795}"
    } else if same_text(e, "py") {
        "\u{e73c}"
    } else if same_text(e, "js") {
        "\u{e781}"
    } else if same_text(e, "ts") {
        "\u{e8ca}"
    } else if same_text(e, "go") {
        "\u{e724}"
    } else if same_text(e, "rb") {
        "\u{e739}"
    } else if same_text(e, "java") {
        "\u{e738}"
    } else if same_text(e, "c") {
        "\u{e61e}"
    } else if same_text(e, "cpp") {
        "\u{e61d}"
    } else if same_text(e, "swift") {
        "\u{e755}"
    } else if same_text(e, "kt") {
        "\u{e81b}"
    } else if same_text(e, "css") {
        "\u{e749}"
    } else if same_text(e, "html") {
        "\u{e736}"
    } else if same_text(e, "sql") {
        "\u{f1c0}"
    } else if same_text(e, "png") || same_text(e, "jpg") || same_text(e, "jpeg") || same_text(e, "gif") || same_text(e, "svg") {
        "\u{f1c5}"
    } else {
        "\u{f15b}"
    }
}

/// The icon shown for an entry with this name.
pub fn get_icon(name: &str, is_dir: bool) -> (r: &'static str)
    ensures
        r@ == icon_for(name@, is_dir),
{
    if is_dir {
        if same_text(name, "src") {
            "\u{f121}"
        } else if same_text(name, "tests") {
            "\u{f0c3}"
        } else if same_text(name, "build") || same_text(name, "dist") || same_text(name, "target") {
            "\u{f1b3}"
        } else if same_text(name, "docs") {
            "\u{f02d}"
        } else if same_text(name, "config") {
            "\u{f013}"
        } else if same_text(name, "scripts") {
            "\u{f120}"
        } else if same_text(name, "assets") {
            "\u{f1c5}"
        } else if same_text(name, ".git") {
            "\u{e702}"
        } else if same_text(name, ".github") {
            "\u{e709}"
        } else {
            "\u{f115}"
        }
    } else {
        if same_text(name, "LICENSE") {
            "\u{eb12}"
        } else if same_text(name, "Makefile") {
            "\u{eb6d}"
        } else if same_text(name, "Dockerfile") {
            "\u{e7b0}"
        } else if same_text(name, "Cargo.toml") {
            "\u{e7a8}"
        } else if same_text(name, "package.json") {
            "\u{e71e}"
        } else if same_text(name, ".env") {
            "\u{f084}"
        } else if same_text(name, ".gitignore") {
            "\u{e702}"
        } else {
            match extension_of(name) {
                Some(e) => ext_icon_of(e.as_str()),
                None => "\u{f15b}",
            }
        }
    }
}

} // verus!
