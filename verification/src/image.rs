//! Which directory entries count as image files.
//!
//! An entry is eligible when the extension of its file name, compared
//! case-insensitively, is one of `jpg`, `jpeg` or `png`.

use vstd::prelude::*;

verus! {

/// The index of the last occurrence of `c` in `s`, or `-1` when `c` does not
/// occur.
pub open spec fn last_index(s: Seq<char>, c: char) -> int
    decreases s.len(),
{
    if s.len() == 0 {
        -1
    } else if s.last() == c {
        s.len() - 1
    } else {
        last_index(s.drop_last(), c)
    }
}

/// `last_index` points at an occurrence of `c` and nothing after it is `c`.
pub proof fn lemma_last_index(s: Seq<char>, c: char)
    ensures
        -1 <= last_index(s, c) < s.len(),
        last_index(s, c) >= 0 ==> s[last_index(s, c)] == c,
        forall|i: int| last_index(s, c) < i < s.len() ==> s[i] != c,
    decreases s.len(),
{
    if s.len() > 0 && s.last() != c {
        lemma_last_index(s.drop_last(), c);
        assert forall|i: int| last_index(s, c) < i < s.len() implies s[i] != c by {
            if i < s.len() - 1 {
                assert(s.drop_last()[i] == s[i]);
            }
        }
    }
}

/// Extending a prefix by one character moves `last_index` to that character
/// exactly when it is `c`.
pub proof fn lemma_last_index_extend(s: Seq<char>, i: int, c: char)
    requires
        0 <= i < s.len(),
    ensures
        last_index(s.take(i + 1), c) == if s[i] == c {
            i
        } else {
            last_index(s.take(i), c)
        },
{
    let t = s.take(i + 1);
    assert(t.last() == s[i]);
    assert(t.drop_last() =~= s.take(i));
}

/// `last_index` of a suffix is `last_index` of the whole, shifted, when the
/// occurrence lies inside the suffix.
pub proof fn lemma_last_index_subrange(s: Seq<char>, j: int, c: char)
    requires
        0 <= j <= s.len(),
    ensures
        last_index(s.subrange(j, s.len() as int), c) == if last_index(s, c) >= j {
            last_index(s, c) - j
        } else {
            -1
        },
    decreases s.len(),
{
    lemma_last_index(s, c);
    let t = s.subrange(j, s.len() as int);
    if j < s.len() {
        assert(t.last() == s.last());
        if s.last() != c {
            assert(t.drop_last() =~= s.drop_last().subrange(j, s.len() - 1));
            lemma_last_index_subrange(s.drop_last(), j, c);
        }
    }
}

/// ASCII case folding of one character: the uppercase letters fold to their
/// lowercase counterparts, every other character is unchanged.
pub open spec fn lower_char(c: char) -> char {
    if c == 'A' {
        'a'
    } else if c == 'B' {
        'b'
    } else if c == 'C' {
        'c'
    } else if c == 'D' {
        'd'
    } else if c == 'E' {
        'e'
    } else if c == 'F' {
        'f'
    } else if c == 'G' {
        'g'
    } else if c == 'H' {
        'h'
    } else if c == 'I' {
        'i'
    } else if c == 'J' {
        'j'
    } else if c == 'K' {
        'k'
    } else if c == 'L' {
        'l'
    } else if c == 'M' {
        'm'
    } else if c == 'N' {
        'n'
    } else if c == 'O' {
        'o'
    } else if c == 'P' {
        'p'
    } else if c == 'Q' {
        'q'
    } else if c == 'R' {
        'r'
    } else if c == 'S' {
        's'
    } else if c == 'T' {
        't'
    } else if c == 'U' {
        'u'
    } else if c == 'V' {
        'v'
    } else if c == 'W' {
        'w'
    } else if c == 'X' {
        'x'
    } else if c == 'Y' {
        'y'
    } else if c == 'Z' {
        'z'
    } else {
        c
    }
}

/// ASCII case folding of a whole string.
pub open spec fn lower_seq(s: Seq<char>) -> Seq<char> {
    s.map_values(|c: char| lower_char(c))
}

/// The extension of the path's file name: the portion of the final path
/// component after its last `.`. A component without a `.` past its first
/// character has no extension.
pub open spec fn extension_of(s: Seq<char>) -> Option<Seq<char>> {
    let f = s.subrange(last_index(s, '/') + 1, s.len() as int);
    let d = last_index(f, '.');
    if d <= 0 {
        None
    } else {
        Some(f.subrange(d + 1, f.len() as int))
    }
}

/// Whether an extension, case-folded, is one of the image extensions.
pub open spec fn is_image_ext(e: Seq<char>) -> bool {
    ||| lower_seq(e) == "jpg"@
    ||| lower_seq(e) == "jpeg"@
    ||| lower_seq(e) == "png"@
}

/// Whether a path names an image file: its file name has an extension and
/// that extension, case-folded, is `jpg`, `jpeg` or `png`.
pub open spec fn is_image_spec(s: Seq<char>) -> bool {
    match extension_of(s) {
        Some(e) => is_image_ext(e),
        None => false,
    }
}

/// A position holding `c` with no `c` after it is the `last_index`.
proof fn lemma_last_index_witness(s: Seq<char>, c: char, p: int)
    requires
        0 <= p < s.len(),
        s[p] == c,
        forall|i: int| p < i < s.len() ==> s[i] != c,
    ensures
        last_index(s, c) == p,
    decreases s.len(),
{
    if p < s.len() - 1 {
        assert(s.last() != c);
        assert forall|i: int| p < i < s.drop_last().len() implies s.drop_last()[i] != c by {
            assert(s.drop_last()[i] == s[i]);
        }
        lemma_last_index_witness(s.drop_last(), c, p);
    }
}

/// Case folding touches nothing but letters: whether a character is the path
/// separator or the extension dot is unchanged by it.
proof fn lemma_lower_char_separators(x: char)
    ensures
        (lower_char(x) == '/') == (x == '/'),
        (lower_char(x) == '.') == (x == '.'),
{
}

/// Two strings that agree on where `c` occurs have the same `last_index`.
proof fn lemma_last_index_pointwise(s: Seq<char>, t: Seq<char>, c: char)
    requires
        s.len() == t.len(),
        forall|i: int| 0 <= i < s.len() ==> ((s[i] == c) <==> (t[i] == c)),
    ensures
        last_index(s, c) == last_index(t, c),
    decreases s.len(),
{
    if s.len() > 0 {
        assert((s.last() == c) <==> (t.last() == c));
        if s.last() != c {
            assert forall|i: int| 0 <= i < s.drop_last().len() implies ((s.drop_last()[i] == c)
                <==> (t.drop_last()[i] == c)) by {
                assert(s.drop_last()[i] == s[i]);
                assert(t.drop_last()[i] == t[i]);
            }
            lemma_last_index_pointwise(s.drop_last(), t.drop_last(), c);
        }
    }
}

/// The image predicate is insensitive to letter case: two paths whose
/// characters fold to the same characters are either both image paths or
/// both not. In particular a path and any re-lettering of it in another case
/// are classified alike.
pub proof fn lemma_is_image_case_insensitive(s: Seq<char>, t: Seq<char>)
    requires
        s.len() == t.len(),
        forall|i: int| 0 <= i < s.len() ==> lower_char(s[i]) == lower_char(t[i]),
    ensures
        is_image_spec(s) == is_image_spec(t),
{
    assert forall|i: int| 0 <= i < s.len() implies ((s[i] == '/') <==> (t[i] == '/')) && ((s[i]
        == '.') <==> (t[i] == '.')) by {
        lemma_lower_char_separators(s[i]);
        lemma_lower_char_separators(t[i]);
    }
    lemma_last_index_pointwise(s, t, '/');
    let j = last_index(s, '/') + 1;
    lemma_last_index(s, '/');
    let fs = s.subrange(j, s.len() as int);
    let ft = t.subrange(j, t.len() as int);
    assert forall|i: int| 0 <= i < fs.len() implies ((fs[i] == '.') <==> (ft[i] == '.')) by {
        assert(fs[i] == s[j + i]);
        assert(ft[i] == t[j + i]);
    }
    lemma_last_index_pointwise(fs, ft, '.');
    let d = last_index(fs, '.');
    lemma_last_index(fs, '.');
    lemma_last_index(ft, '.');
    if d > 0 {
        let es = fs.subrange(d + 1, fs.len() as int);
        let et = ft.subrange(d + 1, ft.len() as int);
        assert(lower_seq(es) =~= lower_seq(et)) by {
            assert forall|i: int| 0 <= i < es.len() implies lower_char(es[i]) == lower_char(
                et[i],
            ) by {
                assert(es[i] == s[j + d + 1 + i]);
                assert(et[i] == t[j + d + 1 + i]);
            }
        }
    }
}

/// An image extension holds no separator: each of its characters folds to a
/// letter of `jpg`, `jpeg` or `png`, so none of them is `.` or `/`.
proof fn lemma_image_ext_chars(ext: Seq<char>)
    requires
        is_image_ext(ext),
    ensures
        3 <= ext.len() <= 4,
        forall|i: int| 0 <= i < ext.len() ==> ext[i] != '.' && ext[i] != '/',
{
    reveal_strlit("jpg");
    reveal_strlit("jpeg");
    reveal_strlit("png");
    assert(lower_seq(ext).len() == ext.len());
    assert forall|i: int| 0 <= i < ext.len() implies ext[i] != '.' && ext[i] != '/' by {
        assert(lower_seq(ext)[i] == lower_char(ext[i]));
        lemma_lower_char_separators(ext[i]);
    }
}

/// Every path that ends in a dot followed by an image extension, in any
/// letter case, is an image path, as long as the dot is neither the first
/// character of the path's final component nor the whole of its stem.
pub proof fn lemma_image_suffix(s: Seq<char>, ext: Seq<char>)
    requires
        is_image_ext(ext),
        s.len() >= ext.len() + 2,
        s[s.len() - ext.len() - 1] == '.',
        s[s.len() - ext.len() - 2] != '/',
        s.subrange(s.len() - ext.len(), s.len() as int) == ext,
    ensures
        is_image_spec(s),
{
    lemma_image_ext_chars(ext);
    let p = s.len() - ext.len() - 1;
    assert forall|i: int| p < i < s.len() implies s[i] != '.' && s[i] != '/' by {
        if i > p {
            assert(s.subrange(s.len() - ext.len(), s.len() as int)[i - p - 1] == s[i]);
        }
    }
    lemma_last_index_witness(s, '.', p);
    lemma_last_index(s, '/');
    let ls = last_index(s, '/');
    assert(ls <= p - 2) by {
        if ls >= p - 1 {
            assert(s[ls] == '/');
        }
    }
    let j = ls + 1;
    let f = s.subrange(j, s.len() as int);
    lemma_last_index_subrange(s, j, '.');
    let d = last_index(f, '.');
    assert(d == p - j && d > 0);
    assert(f.subrange(d + 1, f.len() as int) =~= ext) by {
        assert forall|i: int| 0 <= i < ext.len() implies f.subrange(d + 1, f.len() as int)[i]
            == ext[i] by {
            assert(f.subrange(d + 1, f.len() as int)[i] == s[p + 1 + i]);
            assert(s.subrange(s.len() - ext.len(), s.len() as int)[i] == s[p + 1 + i]);
        }
    }
}

/// ASCII case folding of one character, executable form.
fn lower_char_exec(c: char) -> (r: char)
    ensures
        r == lower_char(c),
{
    if c == 'A' {
        'a'
    } else if c == 'B' {
        'b'
    } else if c == 'C' {
        'c'
    } else if c == 'D' {
        'd'
    } else if c == 'E' {
        'e'
    } else if c == 'F' {
        'f'
    } else if c == 'G' {
        'g'
    } else if c == 'H' {
        'h'
    } else if c == 'I' {
        'i'
    } else if c == 'J' {
        'j'
    } else if c == 'K' {
        'k'
    } else if c == 'L' {
        'l'
    } else if c == 'M' {
        'm'
    } else if c == 'N' {
        'n'
    } else if c == 'O' {
        'o'
    } else if c == 'P' {
        'p'
    } else if c == 'Q' {
        'q'
    } else if c == 'R' {
        'r'
    } else if c == 'S' {
        's'
    } else if c == 'T' {
        't'
    } else if c == 'U' {
        'u'
    } else if c == 'V' {
        'v'
    } else if c == 'W' {
        'w'
    } else if c == 'X' {
        'x'
    } else if c == 'Y' {
        'y'
    } else if c == 'Z' {
        'z'
    } else {
        c
    }
}

/// The integer value of an optional index, `-1` standing for absence.
spec fn opt_index(o: Option<usize>) -> int {
    match o {
        Some(k) => k as int,
        None => -1,
    }
}

/// Decides whether `path` names an image file, by its extension alone.
pub fn is_image(path: &str) -> (r: bool)
    ensures
        r == is_image_spec(path@),
{
    let n = path.unicode_len();
    let mut last_slash: Option<usize> = None;
    let mut last_dot: Option<usize> = None;
    let mut i: usize = 0;
    while i < n
        invariant
            n == path@.len(),
            i <= n,
            opt_index(last_slash) == last_index(path@.take(i as int), '/'),
            opt_index(last_dot) == last_index(path@.take(i as int), '.'),
        decreases n - i,
    {
        let c = path.get_char(i);
        proof {
            lemma_last_index_extend(path@, i as int, '/');
            lemma_last_index_extend(path@, i as int, '.');
        }
        if c == '/' {
            last_slash = Some(i);
        }
        if c == '.' {
            last_dot = Some(i);
        }
        i += 1;
    }
    proof {
        assert(path@.take(n as int) =~= path@);
        lemma_last_index(path@, '/');
        lemma_last_index(path@, '.');
        lemma_last_index_subrange(path@, last_index(path@, '/') + 1, '.');
    }
    let start: usize = match last_slash {
        Some(k) => k + 1,
        None => 0,
    };
    proof {
        assert(start as int == last_index(path@, '/') + 1);
    }
    let ghost f = path@.subrange(start as int, n as int);
    match last_dot {
        Some(d) if d > start => {
            let ghost e = path@.subrange(d as int + 1, n as int);
            proof {
                assert(extension_of(path@) == Some(e)) by {
                    assert(f.subrange(d as int - start as int + 1, f.len() as int) =~= e);
                }
            }
            let m = n - (d + 1);
            if m == 3 {
                let c0 = lower_char_exec(path.get_char(d + 1));
                let c1 = lower_char_exec(path.get_char(d + 2));
                let c2 = lower_char_exec(path.get_char(d + 3));
                let r = (c0 == 'j' && c1 == 'p' && c2 == 'g') || (c0 == 'p' && c1 == 'n' && c2 == 'g');
                proof {
                    reveal_strlit("jpg");
                    reveal_strlit("jpeg");
                    reveal_strlit("png");
                    assert(lower_seq(e).len() == 3);
                    if r {
                        if c0 == 'j' {
                            assert(lower_seq(e) =~= "jpg"@);
                        } else {
                            assert(lower_seq(e) =~= "png"@);
                        }
                    } else {
                        assert(lower_seq(e)[0] == c0);
                        assert(lower_seq(e)[1] == c1);
                        assert(lower_seq(e)[2] == c2);
                    }
                }
                r
            } else if m == 4 {
                let c0 = lower_char_exec(path.get_char(d + 1));
                let c1 = lower_char_exec(path.get_char(d + 2));
                let c2 = lower_char_exec(path.get_char(d + 3));
                let c3 = lower_char_exec(path.get_char(d + 4));
                let r = c0 == 'j' && c1 == 'p' && c2 == 'e' && c3 == 'g';
                proof {
                    reveal_strlit("jpg");
                    reveal_strlit("jpeg");
                    reveal_strlit("png");
                    assert(lower_seq(e).len() == 4);
                    if r {
                        assert(lower_seq(e) =~= "jpeg"@);
                    } else {
                        assert(lower_seq(e)[0] == c0);
                        assert(lower_seq(e)[1] == c1);
                        assert(lower_seq(e)[2] == c2);
                        assert(lower_seq(e)[3] == c3);
                    }
                }
                r
            } else {
                proof {
                    reveal_strlit("jpg");
                    reveal_strlit("jpeg");
                    reveal_strlit("png");
                    assert(lower_seq(e).len() == e.len());
                }
                false
            }
        },
        _ => {
            false
        },
    }
}

} // verus!
