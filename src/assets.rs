use vstd::prelude::*;
use vstd::string::*;

verus! {

/// The file that holds the picture of the image called `name`.
pub open spec fn preview_file(name: Seq<char>) -> Seq<char> {
    name + "_preview.jpg"@
}

/// `file` inside the directory `dir`, with one separator between them.
pub open spec fn join_path(dir: Seq<char>, file: Seq<char>) -> Seq<char> {
    if dir.len() == 0 || dir.last() == '/' {
        dir + file
    } else {
        dir + seq!['/'] + file
    }
}

/// The path of the picture of the image called `name` in the directory `dir`.
/// A name that is itself an absolute path stands alone, without the directory.
pub open spec fn image_path(dir: Seq<char>, name: Seq<char>) -> Seq<char> {
    if name.len() > 0 && name[0] == '/' {
        preview_file(name)
    } else {
        join_path(dir, preview_file(name))
    }
}

/// The path of the picture of the image called `image_name` in the image
/// directory `base_dir`.
pub fn get_image_path(base_dir: &str, image_name: &str) -> (r: String)
    ensures
        r@ == image_path(base_dir@, image_name@),
        image_name@.len() > 0 && image_name@[0] == '/' ==> r@ == image_name@ + "_preview.jpg"@,
{
    proof {
        reveal_strlit("/");
        reveal_strlit("_preview.jpg");
    }
    let name_len = image_name.unicode_len();
    if name_len > 0 && image_name.get_char(0) == '/' {
        let mut path = image_name.to_owned();
        path.append("_preview.jpg");
        return path;
    }
    let mut path = base_dir.to_owned();
    let len = base_dir.unicode_len();
    if len > 0 && base_dir.get_char(len - 1) != '/' {
        path.append("/");
    }
    path.append(image_name);
    path.append("_preview.jpg");
    assert(path@ == join_path(base_dir@, preview_file(image_name@)));
    path
}

/// `pat` stands in `s` from position `i` on.
pub open spec fn occurs_at(s: Seq<char>, pat: Seq<char>, i: int) -> bool {
    0 <= i && i + pat.len() <= s.len() && s.subrange(i, i + pat.len()) == pat
}

/// `pat` stands somewhere in `s`.
pub open spec fn contains_text(s: Seq<char>, pat: Seq<char>) -> bool {
    exists|i: int| occurs_at(s, pat, i)
}

/// The position of the last `.` among the first `k` characters of `s`, not
/// counting one in front (a hidden file's name), or 0 where there is none.
pub open spec fn extension_dot(s: Seq<char>, k: int) -> int
    decreases k,
{
    if k <= 1 {
        0
    } else if s[k - 1] == '.' {
        k - 1
    } else {
        extension_dot(s, k - 1)
    }
}

/// A file name without its last extension.
pub open spec fn strip_extension(s: Seq<char>) -> Seq<char> {
    let p = extension_dot(s, s.len() as int);
    if p == 0 {
        s
    } else {
        s.subrange(0, p)
    }
}

/// The image names that a directory holding the files `files` offers: each
/// file but the previews, without its extension, in the same order.
pub open spec fn image_names_of(files: Seq<Seq<char>>) -> Seq<Seq<char>>
    decreases files.len(),
{
    if files.len() == 0 {
        seq![]
    } else {
        let before = image_names_of(files.drop_last());
        if contains_text(files.last(), "preview"@) {
            before
        } else {
            before.push(strip_extension(files.last()))
        }
    }
}

/// The text of each string.
pub open spec fn texts(v: Seq<String>) -> Seq<Seq<char>> {
    v.map_values(|s: String| s@)
}

fn contains_text_exec(s: &str, pat: &str) -> (r: bool)
    ensures
        r == contains_text(s@, pat@),
{
    let n = s.unicode_len();
    let m = pat.unicode_len();
    if m > n {
        assert forall|i: int| !occurs_at(s@, pat@, i) by {}
        return false;
    }
    let mut i: usize = 0;
    while i <= n - m
        invariant
            m <= n,
            n == s@.len(),
            m == pat@.len(),
            forall|k: int| 0 <= k < i ==> !occurs_at(s@, pat@, k),
        decreases n - m + 1 - i,
    {
        let mut j: usize = 0;
        let mut same = true;
        while j < m && same
            invariant
                m <= n,
                i <= n - m,
                n == s@.len(),
                m == pat@.len(),
                j <= m,
                same ==> forall|t: int| 0 <= t < j ==> s@[i + t] == pat@[t],
                !same ==> s@[i + j - 1] != pat@[j - 1] && 0 < j,
            decreases m - j + (if same { 1int } else { 0int }),
        {
            if s.get_char(i + j) != pat.get_char(j) {
                same = false;
            }
            j = j + 1;
        }
        if same {
            assert(s@.subrange(i as int, i + m) =~= pat@);
            assert(occurs_at(s@, pat@, i as int));
            return true;
        }
        assert(!occurs_at(s@, pat@, i as int)) by {
            if occurs_at(s@, pat@, i as int) {
                assert(s@.subrange(i as int, i + m)[j - 1] == s@[i + j - 1]);
            }
        }
        i = i + 1;
    }
    assert forall|k: int| !occurs_at(s@, pat@, k) by {
        if 0 <= k < i {
        }
    }
    false
}

fn strip_extension_exec(s: &str) -> (r: String)
    ensures
        r@ == strip_extension(s@),
{
    let n = s.unicode_len();
    let mut k: usize = n;
    while k > 1 && s.get_char(k - 1) != '.'
        invariant
            k <= n,
            n == s@.len(),
            extension_dot(s@, k as int) == extension_dot(s@, n as int),
        decreases k,
    {
        k = k - 1;
    }
    if k <= 1 {
        s.to_owned()
    } else {
        s.substring_char(0, k - 1).to_owned()
    }
}

/// The image names offered by a directory whose files are called `files`:
/// previews are left out and the others lose their extension.
pub fn image_names(files: &Vec<String>) -> (r: Vec<String>)
    ensures
        texts(r@) == image_names_of(texts(files@)),
{
    proof {
        reveal_strlit("preview");
    }
    let mut names: Vec<String> = Vec::new();
    let mut i: usize = 0;
    while i < files.len()
        invariant
            i <= files@.len(),
            texts(names@) == image_names_of(texts(files@).take(i as int)),
        decreases files@.len() - i,
    {
        let file = files[i].as_str();
        proof {
            assert(texts(files@).take(i + 1).drop_last() =~= texts(files@).take(i as int));
        }
        if !contains_text_exec(file, "preview") {
            let name = strip_extension_exec(file);
            let ghost before = names@;
            let ghost text = name@;
            names.push(name);
            assert(texts(names@) =~= texts(before).push(text));
        }
        i = i + 1;
    }
    assert(texts(files@).take(i as int) =~= texts(files@));
    names
}

} // verus!
