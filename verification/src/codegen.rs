//! Choosing how the protocol-buffer code of TensorFlow is obtained.
//!
//! The build method is given as text such as `url://...`,
//! `src_dir://...`, `src_file://...` or `install_prefix://...`.

use vstd::prelude::*;

verus! {

/// The ways to obtain TensorFlow's protocol-buffer documents.
#[derive(Debug, Clone)]
pub enum BuildMethod {
    /// Download the source package from a URL.
    Url(String),
    /// Use an unpacked source directory.
    SrcDir(String),
    /// Use a source package file.
    SrcFile(String),
    /// Use an installed TensorFlow under an install prefix.
    InstallPrefix(String),
}

/// Whether `s` starts with `prefix`.
pub open spec fn has_prefix(s: Seq<char>, prefix: Seq<char>) -> bool {
    prefix.len() <= s.len() && s.take(prefix.len() as int) == prefix
}

/// The text after `prefix`, if `text` starts with it.
pub fn strip_prefix<'a>(text: &'a str, prefix: &str) -> (r: Option<&'a str>)
    ensures
        r is Some <==> has_prefix(text@, prefix@),
        r matches Some(rest) ==> rest@ == text@.skip(prefix@.len() as int),
{
    let n = prefix.unicode_len();
    let m = text.unicode_len();
    if n > m {
        return None;
    }
    let mut i: usize = 0;
    while i < n
        invariant
            n == prefix@.len(),
            m == text@.len(),
            n <= m,
            i <= n,
            forall|k: int| 0 <= k < i ==> text@[k] == prefix@[k],
        decreases n - i,
    {
        if text.get_char(i) != prefix.get_char(i) {
            proof {
                assert(text@.take(n as int)[i as int] != prefix@[i as int]);
            }
            return None;
        }
        i = i + 1;
    }
    proof {
        assert(text@.take(n as int) =~= prefix@);
    }
    Some(text.substring_char(n, m))
}

/// The build method that the text names, if any. A `url://` with nothing
/// after it names `default_url`.
pub fn parse_build_method(text: &str, default_url: &str) -> (r: Option<BuildMethod>)
    ensures
        has_prefix(text@, "url://"@) ==> (r matches Some(BuildMethod::Url(url)) && url@ == if text@.len()
            == "url://"@.len() {
            default_url@
        } else {
            text@.skip("url://"@.len() as int)
        }),
        !has_prefix(text@, "url://"@) && has_prefix(text@, "src_dir://"@) ==> (r matches Some(
            BuildMethod::SrcDir(dir),
        ) && dir@ == text@.skip("src_dir://"@.len() as int)),
        !has_prefix(text@, "url://"@) && !has_prefix(text@, "src_dir://"@) && has_prefix(
            text@,
            "src_file://"@,
        ) ==> (r matches Some(BuildMethod::SrcFile(path)) && path@ == text@.skip(
            "src_file://"@.len() as int,
        )),
        !has_prefix(text@, "url://"@) && !has_prefix(text@, "src_dir://"@) && !has_prefix(
            text@,
            "src_file://"@,
        ) && has_prefix(text@, "install_prefix://"@) ==> (r matches Some(
            BuildMethod::InstallPrefix(prefix),
        ) && prefix@ == text@.skip("install_prefix://"@.len() as int)),
        !has_prefix(text@, "url://"@) && !has_prefix(text@, "src_dir://"@) && !has_prefix(
            text@,
            "src_file://"@,
        ) && !has_prefix(text@, "install_prefix://"@) ==> r is None,
{
    if let Some(url) = strip_prefix(text, "url://") {
        if url.unicode_len() == 0 {
            Some(BuildMethod::Url(String::from_str(default_url)))
        } else {
            Some(BuildMethod::Url(String::from_str(url)))
        }
    } else if let Some(dir) = strip_prefix(text, "src_dir://") {
        Some(BuildMethod::SrcDir(String::from_str(dir)))
    } else if let Some(path) = strip_prefix(text, "src_file://") {
        Some(BuildMethod::SrcFile(String::from_str(path)))
    } else if let Some(prefix) = strip_prefix(text, "install_prefix://") {
        Some(BuildMethod::InstallPrefix(String::from_str(prefix)))
    } else {
        None
    }
}

/// The directory under an install prefix that holds TensorFlow's
/// protocol-buffer documents: `include/tensorflow` joined to the prefix,
/// with a separator between them unless the prefix is empty or already
/// ends with one.
pub fn install_prefix_proto_dir(prefix: &str) -> (r: String)
    ensures
        prefix@.len() == 0 ==> r@ == "include/tensorflow"@,
        prefix@.len() > 0 && prefix@.last() == '/' ==> r@ == prefix@ + "include/tensorflow"@,
        prefix@.len() > 0 && prefix@.last() != '/' ==> r@ == prefix@ + "/include/tensorflow"@,
{
    let n = prefix.unicode_len();
    let mut dir = String::from_str(prefix);
    if n > 0 && prefix.get_char(n - 1) != '/' {
        dir.append("/");
    }
    dir.append("include/tensorflow");
    proof {
        reveal_strlit("/");
        reveal_strlit("include/tensorflow");
        reveal_strlit("/include/tensorflow");
        if n > 0 && prefix@.last() != '/' {
            assert(prefix@ + "/"@ + "include/tensorflow"@ =~= prefix@ + "/include/tensorflow"@);
        }
    }
    dir
}

} // verus!
