//! Image references and the rules that resolve a raw image string into a
//! registry host, a repository name and, when present, a tag.

use vstd::prelude::*;
use vstd::string::StrSliceExecFns;
use vstd::string::StringExecFns;
use crate::chars::{
    contains_char,
    count_char,
    count_prefix,
    first_index_of,
    is_first_index,
    lemma_contains_first,
    lemma_count_concat,
    lemma_count_pos,
    lemma_count_singleton,
    lemma_count_zero,
    lemma_first_index_unique,
};

verus! {

/// A container image without its tag: a registry host and a
/// registry-relative repository name.
#[derive(Eq, PartialEq, Debug)]
pub struct Image {
    pub registry: String,
    pub name: String,
}

/// An image together with the tag it was declared with.
#[derive(Eq, PartialEq, Debug)]
pub struct VersionedImage {
    pub image: Image,
    pub version: String,
}

/// Why a raw image string was rejected.
#[derive(Eq, PartialEq, Debug)]
pub enum ParseError {
    /// The string does not match any recognized slash/host shape; carries
    /// the offending name portion.
    InvalidImageFormat(String),
    /// A versioned reference lacks a `:` tag separator; carries the whole
    /// offending string.
    MissingTag(String),
}

/// The registry assumed when a reference names none.
pub open spec fn default_registry() -> Seq<char> {
    "registry-1.docker.io"@
}

/// A `.` occurs before any `/`: the first slash-separated segment of `s`
/// looks like a host name.
pub open spec fn dot_before_slash(s: Seq<char>) -> bool {
    exists|j: int|
        0 <= j < s.len() && (#[trigger] s[j]) == '.' && (forall|k: int| 0 <= k <= j ==> s[k] != '/')
}

/// The raw string carries an explicit registry host: either three
/// slash-separated segments, or two where the first contains a dot.
pub open spec fn names_registry(s: Seq<char>) -> bool {
    count_char(s, '/') == 2 || (count_char(s, '/') == 1 && dot_before_slash(s))
}

/// A raw image string is accepted exactly when it has at most two slashes
/// and, where its first segment names a registry, that host segment and
/// the remainder after it are both non-empty.
pub open spec fn image_parse_ok(s: Seq<char>) -> bool {
    &&& count_char(s, '/') <= 2
    &&& (names_registry(s) ==> 0 < first_index_of(s, '/') < s.len() - 1)
}

/// The registry host that parsing `s` yields.
pub open spec fn spec_registry_of(s: Seq<char>) -> Seq<char> {
    if names_registry(s) {
        s.subrange(0, first_index_of(s, '/'))
    } else {
        default_registry()
    }
}

/// The repository name that parsing `s` yields.
pub open spec fn spec_name_of(s: Seq<char>) -> Seq<char> {
    if names_registry(s) {
        s.subrange(first_index_of(s, '/') + 1, s.len() as int)
    } else if count_char(s, '/') == 0 {
        "library/"@ + s
    } else {
        s
    }
}

/// `img` is what parsing `s` yields.
pub open spec fn is_parsed_image(s: Seq<char>, img: Image) -> bool {
    img.registry@ == spec_registry_of(s) && img.name@ == spec_name_of(s)
}

/// The portion of a versioned reference before its first `:`.
pub open spec fn name_portion(s: Seq<char>) -> Seq<char> {
    s.subrange(0, first_index_of(s, ':'))
}

/// The portion of a versioned reference after its first `:`.
pub open spec fn tag_portion(s: Seq<char>) -> Seq<char> {
    s.subrange(first_index_of(s, ':') + 1, s.len() as int)
}

/// Split a raw image name into registry host and repository name.
///
/// A single-segment name maps to the default registry under the `library/`
/// namespace; a leading host-like segment (or a three-segment shape) names
/// the registry itself; any deeper shape, and any shape whose host segment
/// or remainder would be empty, is rejected. On success both fields are
/// non-empty.
pub fn get_registry_host_and_image(image_name: &str) -> (r: Result<Image, ParseError>)
    ensures
        match r {
            Ok(img) => {
                &&& image_parse_ok(image_name@)
                &&& is_parsed_image(image_name@, img)
                &&& img.registry@.len() > 0
                &&& img.name@.len() > 0
            },
            Err(e) => !image_parse_ok(image_name@) && (e matches ParseError::InvalidImageFormat(raw)
                && raw@ == image_name@),
        },
{
    let len: usize = image_name.unicode_len();
    let mut i: usize = 0;
    let mut slashes: usize = 0;
    let mut first_slash: usize = 0;
    let mut dot_in_first_segment: bool = false;
    while i < len
        invariant
            i <= len,
            len == image_name@.len(),
            slashes <= i,
            slashes == count_prefix(image_name@, '/', i as int),
            slashes > 0 ==> first_slash < i && is_first_index(image_name@, '/', first_slash as int),
            dot_in_first_segment <==> (exists|j: int|
                0 <= j < i && (#[trigger] image_name@[j]) == '.' && (forall|k: int|
                    0 <= k <= j ==> image_name@[k] != '/')),
        decreases len - i,
    {
        let c = image_name.get_char(i);
        if c == '/' {
            if slashes == 0 {
                proof {
                    lemma_count_zero(image_name@, '/', i as int);
                }
                first_slash = i;
            }
            slashes = slashes + 1;
        } else if c == '.' {
            if slashes == 0 {
                proof {
                    lemma_count_zero(image_name@, '/', i as int);
                }
                dot_in_first_segment = true;
            }
        }
        i = i + 1;
    }
    if slashes == 0 {
        proof {
            lemma_default_registry_no_slash();
            lemma_library_prefix_one_slash();
        }
        Ok(
            Image {
                registry: String::from_str("registry-1.docker.io"),
                name: String::from_str("library/").concat(image_name),
            },
        )
    } else if slashes == 2 || (slashes == 1 && dot_in_first_segment) {
        proof {
            lemma_first_index_unique(image_name@, '/', first_slash as int);
        }
        if first_slash > 0 && first_slash + 1 < len {
            let registry = String::from_str(image_name.substring_char(0, first_slash));
            let name = String::from_str(image_name.substring_char(first_slash + 1, len));
            Ok(Image { registry, name })
        } else {
            Err(ParseError::InvalidImageFormat(String::from_str(image_name)))
        }
    } else if slashes == 1 {
        proof {
            lemma_default_registry_no_slash();
        }
        Ok(
            Image {
                registry: String::from_str("registry-1.docker.io"),
                name: String::from_str(image_name),
            },
        )
    } else {
        Err(ParseError::InvalidImageFormat(String::from_str(image_name)))
    }
}

/// Split an `image:tag` string on its first `:` and parse the image part.
///
/// The first colon is taken as the tag separator, so a registry host that
/// embeds an explicit port makes the split ambiguous; that shape is not
/// recognized here.
pub fn parse_image_definition(image_definition: &str) -> (r: Result<VersionedImage, ParseError>)
    ensures
        match r {
            Ok(vi) => {
                &&& contains_char(image_definition@, ':')
                &&& image_parse_ok(name_portion(image_definition@))
                &&& is_parsed_image(name_portion(image_definition@), vi.image)
                &&& vi.image.registry@.len() > 0
                &&& vi.image.name@.len() > 0
                &&& vi.version@ == tag_portion(image_definition@)
            },
            Err(e) => match e {
                ParseError::MissingTag(raw) => !contains_char(image_definition@, ':') && raw@
                    == image_definition@,
                ParseError::InvalidImageFormat(raw) => contains_char(image_definition@, ':')
                    && !image_parse_ok(name_portion(image_definition@)) && raw@ == name_portion(
                    image_definition@,
                ),
            },
        },
{
    let len: usize = image_definition.unicode_len();
    match crate::chars::find_first(image_definition, ':') {
        None => Err(ParseError::MissingTag(String::from_str(image_definition))),
        Some(ci) => {
            proof {
                lemma_first_index_unique(image_definition@, ':', ci as int);
                lemma_count_pos(image_definition@, ':', len as int, ci as int);
            }
            let name_str = image_definition.substring_char(0, ci);
            let version_str = image_definition.substring_char(ci + 1, len);
            match get_registry_host_and_image(name_str) {
                Ok(img) => Ok(
                    VersionedImage { image: img, version: String::from_str(version_str) },
                ),
                Err(e) => Err(e),
            }
        },
    }
}

/// The newest tag the registry offers for `image`; the registry lookup is
/// not implemented, so no version is ever reported.
pub fn get_latest_image_version(_image: Image) -> (r: Option<String>)
    ensures
        r is None,
{
    None
}

impl Image {
    /// The fully qualified form: registry host and repository name joined
    /// by a slash.
    pub fn full_reference(&self) -> (r: String)
        ensures
            r@ == self.registry@ + seq!['/'] + self.name@,
    {
        proof {
            reveal_strlit("/");
        }
        let mut out = self.registry.clone();
        out.append("/");
        out.append(self.name.as_str());
        proof {
            assert(("/")@ =~= seq!['/']);
        }
        out
    }
}

/// The default registry host holds no slash.
proof fn lemma_default_registry_no_slash()
    ensures
        default_registry().len() == 20,
        count_char(default_registry(), '/') == 0,
{
    reveal_strlit("registry-1.docker.io");
    assert(count_char(default_registry(), '/') == 0) by {
        reveal_with_fuel(count_prefix, 21);
    };
}

/// The default namespace prefix holds exactly its trailing slash.
proof fn lemma_library_prefix_one_slash()
    ensures
        "library/"@.len() == 8,
        count_char("library/"@, '/') == 1,
{
    reveal_strlit("library/");
    assert(count_char("library/"@, '/') == 1) by {
        reveal_with_fuel(count_prefix, 9);
    };
}

/// Every accepted image name parses into a registry host and a repository
/// name that are both non-empty.
pub proof fn lemma_parsed_fields_nonempty(s: Seq<char>)
    requires
        image_parse_ok(s),
    ensures
        spec_registry_of(s).len() > 0,
        spec_name_of(s).len() > 0,
{
    lemma_default_registry_no_slash();
    lemma_library_prefix_one_slash();
    if names_registry(s) {
        assert(0 < first_index_of(s, '/') < s.len() - 1);
    } else if count_char(s, '/') == 1 {
        lemma_contains_first(s, '/');
    }
}

/// Re-parsing the fully qualified form of a parsed image gives back the
/// same registry host and repository name. The single-segment shape is
/// normalized one way — its fully qualified form differs from the raw
/// string — yet parsing that form still lands on the same reference.
pub proof fn lemma_reparse_fixed_point(s: Seq<char>)
    requires
        image_parse_ok(s),
    ensures
        image_parse_ok(spec_registry_of(s) + seq!['/'] + spec_name_of(s)),
        spec_registry_of(spec_registry_of(s) + seq!['/'] + spec_name_of(s)) == spec_registry_of(s),
        spec_name_of(spec_registry_of(s) + seq!['/'] + spec_name_of(s)) == spec_name_of(s),
{
    let reg = spec_registry_of(s);
    let nm = spec_name_of(s);
    let mid = seq!['/'];
    let full = reg + mid + nm;
    let n = count_char(s, '/');
    lemma_count_singleton('/', '/');
    if names_registry(s) {
        lemma_contains_first(s, '/');
        let fs = first_index_of(s, '/');
        assert(full =~= s);
    } else {
        lemma_default_registry_no_slash();
        lemma_library_prefix_one_slash();
        assert(reg == default_registry());
        if n == 0 {
            lemma_count_concat("library/"@, s, '/');
            assert(nm == "library/"@ + s);
            assert(count_char(nm, '/') == 1);
            assert(nm.len() >= 8);
        } else {
            assert(n == 1);
            assert(nm == s);
            lemma_contains_first(s, '/');
            assert(nm.len() > 0);
        }
        lemma_count_concat(reg, mid, '/');
        lemma_count_concat(reg + mid, nm, '/');
        assert(count_char(full, '/') == 2);
        assert(names_registry(full));
        lemma_count_zero(reg, '/', 20);
        assert(full[20] == mid[0]);
        assert(forall|k: int| 0 <= k < 20 ==> full[k] == reg[k]);
        assert(is_first_index(full, '/', 20));
        lemma_first_index_unique(full, '/', 20);
        assert(0 < first_index_of(full, '/') < full.len() - 1);
        assert(full.subrange(0, 20) =~= reg);
        assert(full.subrange(21, full.len() as int) =~= nm);
    }
}

impl ParseError {
    /// A human-readable description of the failure.
    pub fn message(&self) -> (m: String)
        ensures
            self matches ParseError::InvalidImageFormat(raw) ==> m@ == "Invalid image name format: "@
                + raw@,
            self matches ParseError::MissingTag(raw) ==> m@
                == "Unable to extract image and version from: "@ + raw@,
    {
        match self {
            ParseError::InvalidImageFormat(raw) => String::from_str(
                "Invalid image name format: ",
            ).concat(raw.as_str()),
            ParseError::MissingTag(raw) => String::from_str(
                "Unable to extract image and version from: ",
            ).concat(raw.as_str()),
        }
    }
}

} // verus!
