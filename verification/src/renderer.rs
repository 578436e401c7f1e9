//! Rendering descriptions: output formats, responsive size presets, and the
//! SVG-placeholder and HTML `picture` markup the renderer writes. The raster
//! encoding itself lives outside the library, next to the codecs.

use crate::strings::{all_ascii, lower_of, lowercase, push_dec, spec_ascii_lower, spec_dec, str_eq};
use vstd::prelude::*;

verus! {

/// An output image format.
#[derive(Debug, Clone, Copy, PartialEq, Eq, Structural)]
pub enum OutputFormat {
    Png,
    Jpeg,
    WebP,
    Svg,
}

/// The format named by a lowercased file extension.
pub open spec fn spec_format_of_ext(l: Seq<char>) -> Option<OutputFormat> {
    if l == "png"@ {
        Some(OutputFormat::Png)
    } else if l == "jpg"@ || l == "jpeg"@ {
        Some(OutputFormat::Jpeg)
    } else if l == "webp"@ {
        Some(OutputFormat::WebP)
    } else if l == "svg"@ {
        Some(OutputFormat::Svg)
    } else {
        None
    }
}

impl OutputFormat {
    /// The file extension conventional for the format.
    pub fn extension(&self) -> (r: &'static str)
        ensures
            r@ == match *self {
                OutputFormat::Png => "png"@,
                OutputFormat::Jpeg => "jpg"@,
                OutputFormat::WebP => "webp"@,
                OutputFormat::Svg => "svg"@,
            },
    {
        match self {
            OutputFormat::Png => "png",
            OutputFormat::Jpeg => "jpg",
            OutputFormat::WebP => "webp",
            OutputFormat::Svg => "svg",
        }
    }

    /// The MIME type of the format.
    pub fn mime_type(&self) -> (r: &'static str)
        ensures
            r@ == match *self {
                OutputFormat::Png => "image/png"@,
                OutputFormat::Jpeg => "image/jpeg"@,
                OutputFormat::WebP => "image/webp"@,
                OutputFormat::Svg => "image/svg+xml"@,
            },
    {
        match self {
            OutputFormat::Png => "image/png",
            OutputFormat::Jpeg => "image/jpeg",
            OutputFormat::WebP => "image/webp",
            OutputFormat::Svg => "image/svg+xml",
        }
    }

    /// Classifies a file extension, case-insensitively; for an ASCII
    /// extension the result is fixed by the ASCII lowercase mapping.
    pub fn from_extension(ext: &str) -> (r: Option<Self>)
        ensures
            r == spec_format_of_ext(lower_of(ext@)),
            all_ascii(ext@) ==> r == spec_format_of_ext(spec_ascii_lower(ext@)),
    {
        let low = lowercase(ext);
        if str_eq(low.as_str(), "png") {
            Some(OutputFormat::Png)
        } else if str_eq(low.as_str(), "jpg") || str_eq(low.as_str(), "jpeg") {
            Some(OutputFormat::Jpeg)
        } else if str_eq(low.as_str(), "webp") {
            Some(OutputFormat::WebP)
        } else if str_eq(low.as_str(), "svg") {
            Some(OutputFormat::Svg)
        } else {
            None
        }
    }
}

/// One responsive size: its width, the suffix its file carries and the
/// descriptor its `srcset` entry carries.
#[derive(Debug, Clone)]
pub struct ResponsiveSize {
    pub width: u32,
    pub suffix: String,
    pub descriptor: String,
}

impl Default for ResponsiveSize {
    /// The plain 800-pixel size.
    fn default() -> (r: Self)
        ensures
            r.width == 800,
            r.suffix@ == Seq::<char>::empty(),
            r.descriptor@ == "1x"@,
    {
        ResponsiveSize { width: 800, suffix: String::new(), descriptor: String::from_str("1x") }
    }
}

/// The stock responsive size sets.
pub struct ResponsivePresets;

impl ResponsivePresets {
    /// Standard web sizes, 320 to 1920 pixels wide.
    pub fn web() -> (r: Vec<ResponsiveSize>)
        ensures
            r@.len() == 4,
            r@[0].width == 320 && r@[0].suffix@ == "-sm"@ && r@[0].descriptor@ == "320w"@,
            r@[1].width == 640 && r@[1].suffix@ == "-md"@ && r@[1].descriptor@ == "640w"@,
            r@[2].width == 1024 && r@[2].suffix@ == "-lg"@ && r@[2].descriptor@ == "1024w"@,
            r@[3].width == 1920 && r@[3].suffix@ == "-xl"@ && r@[3].descriptor@ == "1920w"@,
    {
        let mut v: Vec<ResponsiveSize> = Vec::new();
        v.push(
            ResponsiveSize {
                width: 320,
                suffix: String::from_str("-sm"),
                descriptor: String::from_str("320w"),
            },
        );
        v.push(
            ResponsiveSize {
                width: 640,
                suffix: String::from_str("-md"),
                descriptor: String::from_str("640w"),
            },
        );
        v.push(
            ResponsiveSize {
                width: 1024,
                suffix: String::from_str("-lg"),
                descriptor: String::from_str("1024w"),
            },
        );
        v.push(
            ResponsiveSize {
                width: 1920,
                suffix: String::from_str("-xl"),
                descriptor: String::from_str("1920w"),
            },
        );
        v
    }

    /// Sizes for ordinary, double and triple pixel densities.
    pub fn retina() -> (r: Vec<ResponsiveSize>)
        ensures
            r@.len() == 3,
            r@[0].width == 400 && r@[0].suffix@ == Seq::<char>::empty() && r@[0].descriptor@
                == "1x"@,
            r@[1].width == 800 && r@[1].suffix@ == "@2x"@ && r@[1].descriptor@ == "2x"@,
            r@[2].width == 1200 && r@[2].suffix@ == "@3x"@ && r@[2].descriptor@ == "3x"@,
    {
        let mut v: Vec<ResponsiveSize> = Vec::new();
        v.push(
            ResponsiveSize { width: 400, suffix: String::new(), descriptor: String::from_str("1x") },
        );
        v.push(
            ResponsiveSize {
                width: 800,
                suffix: String::from_str("@2x"),
                descriptor: String::from_str("2x"),
            },
        );
        v.push(
            ResponsiveSize {
                width: 1200,
                suffix: String::from_str("@3x"),
                descriptor: String::from_str("3x"),
            },
        );
        v
    }

    /// Thumbnail sizes, 100 to 600 pixels wide.
    pub fn thumbnails() -> (r: Vec<ResponsiveSize>)
        ensures
            r@.len() == 3,
            r@[0].width == 100 && r@[0].suffix@ == "-thumb"@ && r@[0].descriptor@ == "100w"@,
            r@[1].width == 300 && r@[1].suffix@ == "-small"@ && r@[1].descriptor@ == "300w"@,
            r@[2].width == 600 && r@[2].suffix@ == "-medium"@ && r@[2].descriptor@ == "600w"@,
    {
        let mut v: Vec<ResponsiveSize> = Vec::new();
        v.push(
            ResponsiveSize {
                width: 100,
                suffix: String::from_str("-thumb"),
                descriptor: String::from_str("100w"),
            },
        );
        v.push(
            ResponsiveSize {
                width: 300,
                suffix: String::from_str("-small"),
                descriptor: String::from_str("300w"),
            },
        );
        v.push(
            ResponsiveSize {
                width: 600,
                suffix: String::from_str("-medium"),
                descriptor: String::from_str("600w"),
            },
        );
        v
    }
}

/// How media is rendered: the canvas, the background, the corner radius, the
/// quality and the output format.
#[derive(Debug, Clone)]
pub struct RenderOptions {
    pub width: u32,
    pub height: u32,
    pub background: String,
    pub border_radius: u32,
    pub quality: u8,
    pub format: OutputFormat,
}

impl Default for RenderOptions {
    /// An 800 by 600 PNG canvas on a light background.
    fn default() -> (r: Self)
        ensures
            r.width == 800 && r.height == 600,
            r.background@ == "#f0f0f0"@,
            r.border_radius == 8 && r.quality == 85,
            r.format == OutputFormat::Png,
    {
        RenderOptions {
            width: 800,
            height: 600,
            background: String::from_str("#f0f0f0"),
            border_radius: 8,
            quality: 85,
            format: OutputFormat::Png,
        }
    }
}

/// The files one responsive rendering produced, with its `srcset` and
/// `sizes` attributes.
#[derive(Debug, Clone)]
pub struct ResponsiveImageResult {
    pub base_path: String,
    pub images: Vec<ResponsiveImageVariant>,
    pub srcset: String,
    pub sizes: String,
}

/// One rendered responsive file.
#[derive(Debug, Clone)]
pub struct ResponsiveImageVariant {
    pub path: String,
    pub width: u32,
    pub height: u32,
    pub format: OutputFormat,
    pub size_bytes: usize,
}

/// The renderer: its options.
pub struct Renderer {
    pub options: RenderOptions,
}

/// The SVG placeholder the renderer writes for a piece of media: a rounded
/// rectangle of the canvas size and background, with the alternative text
/// and the media type centred on it.
pub open spec fn spec_svg(o: RenderOptions, alt_text: Seq<char>, media_type: Seq<char>) -> Seq<
    char,
> {
    "<svg xmlns=\"http://www.w3.org/2000/svg\" width=\""@ + spec_dec(o.width as int)
        + "\" height=\""@ + spec_dec(o.height as int) + "\" viewBox=\"0 0 "@ + spec_dec(
        o.width as int,
    ) + seq![' '] + spec_dec(o.height as int) + "\">\n  <rect width=\"100%\" height=\"100%\" fill=\""@
        + o.background@ + "\" rx=\""@ + spec_dec(o.border_radius as int)
        + "\"/>\n  <text x=\"50%\" y=\"45%\" text-anchor=\"middle\" fill=\"#666\" font-family=\"sans-serif\" font-size=\"14\">"@
        + alt_text
        + "</text>\n  <text x=\"50%\" y=\"55%\" text-anchor=\"middle\" fill=\"#999\" font-family=\"sans-serif\" font-size=\"12\">"@
        + media_type + "</text>\n</svg>"@
}

impl Renderer {
    /// A renderer with the default options.
    pub fn new() -> (r: Self)
        ensures
            r.options.width == 800 && r.options.height == 600,
            r.options.background@ == "#f0f0f0"@,
            r.options.border_radius == 8 && r.options.quality == 85,
            r.options.format == OutputFormat::Png,
    {
        Renderer { options: RenderOptions::default() }
    }

    /// A renderer with the given options.
    pub fn with_options(options: RenderOptions) -> (r: Self)
        ensures
            r.options == options,
    {
        Renderer { options }
    }

    /// The renderer's options.
    pub fn options(&self) -> (r: &RenderOptions)
        ensures
            r == self.options,
    {
        &self.options
    }

    /// Writes the SVG placeholder for a piece of media.
    pub fn render_svg(&self, alt_text: &str, media_type: &str) -> (r: String)
        ensures
            r@ == spec_svg(self.options, alt_text@, media_type@),
    {
        proof {
            reveal_strlit("<svg xmlns=\"http://www.w3.org/2000/svg\" width=\"");
            reveal_strlit("\" height=\"");
            reveal_strlit("\" viewBox=\"0 0 ");
            reveal_strlit("\">\n  <rect width=\"100%\" height=\"100%\" fill=\"");
            reveal_strlit("\" rx=\"");
            reveal_strlit(
                "\"/>\n  <text x=\"50%\" y=\"45%\" text-anchor=\"middle\" fill=\"#666\" font-family=\"sans-serif\" font-size=\"14\">",
            );
            reveal_strlit(
                "</text>\n  <text x=\"50%\" y=\"55%\" text-anchor=\"middle\" fill=\"#999\" font-family=\"sans-serif\" font-size=\"12\">",
            );
            reveal_strlit("</text>\n</svg>");
        }
        let mut out = String::from_str("<svg xmlns=\"http://www.w3.org/2000/svg\" width=\"");
        push_dec(&mut out, self.options.width as u64);
        out.append("\" height=\"");
        push_dec(&mut out, self.options.height as u64);
        out.append("\" viewBox=\"0 0 ");
        push_dec(&mut out, self.options.width as u64);
        out.push(' ');
        push_dec(&mut out, self.options.height as u64);
        out.append("\">\n  <rect width=\"100%\" height=\"100%\" fill=\"");
        out.append(self.options.background.as_str());
        out.append("\" rx=\"");
        push_dec(&mut out, self.options.border_radius as u64);
        out.append(
            "\"/>\n  <text x=\"50%\" y=\"45%\" text-anchor=\"middle\" fill=\"#666\" font-family=\"sans-serif\" font-size=\"14\">",
        );
        out.append(alt_text);
        out.append(
            "</text>\n  <text x=\"50%\" y=\"55%\" text-anchor=\"middle\" fill=\"#999\" font-family=\"sans-serif\" font-size=\"12\">",
        );
        out.append(media_type);
        out.append("</text>\n</svg>");
        out
    }
}

/// The `srcset` entries of the WebP variants from `i` on: path and width.
pub open spec fn spec_webp_srcset(vs: Seq<ResponsiveImageVariant>, i: int) -> Seq<Seq<char>>
    decreases vs.len() - i,
    when 0 <= i
{
    if i >= vs.len() {
        Seq::empty()
    } else {
        let rest = spec_webp_srcset(vs, i + 1);
        if vs[i].format == OutputFormat::WebP {
            seq![vs[i].path@ + seq![' '] + spec_dec(vs[i].width as int) + seq!['w']] + rest
        } else {
            rest
        }
    }
}

/// The first variant from `i` on that is not WebP.
pub open spec fn spec_first_non_webp(vs: Seq<ResponsiveImageVariant>, i: int) -> Option<int>
    decreases vs.len() - i,
    when 0 <= i
{
    if i >= vs.len() {
        None
    } else if vs[i].format != OutputFormat::WebP {
        Some(i)
    } else {
        spec_first_non_webp(vs, i + 1)
    }
}

/// The fallback `img` element of a variant.
pub open spec fn spec_img_elt(v: ResponsiveImageVariant, alt: Seq<char>, cls: Seq<char>) -> Seq<
    char,
> {
    "  <img src=\""@ + v.path@ + "\" alt=\""@ + alt + "\" width=\""@ + spec_dec(v.width as int)
        + "\" height=\""@ + spec_dec(v.height as int) + "\""@ + cls + " loading=\"lazy\" />\n"@
}

/// The class attribute text, or nothing without a class.
pub open spec fn spec_class_attr(class: Option<&str>) -> Seq<char> {
    match class {
        Some(c) => " class=\""@ + c@ + "\""@,
        None => Seq::empty(),
    }
}

/// The `picture` markup of a responsive rendering: a WebP `source` element
/// where WebP variants exist, then a fallback `img` from the first non-WebP
/// variant, or the first variant altogether.
pub open spec fn spec_picture_html(
    res: &ResponsiveImageResult,
    alt: Seq<char>,
    class: Option<&str>,
) -> Seq<char> {
    let cls = spec_class_attr(class);
    let webp = spec_webp_srcset(res.images@, 0);
    let src: Seq<char> = if webp.len() > 0 {
        "  <source type=\"image/webp\" srcset=\""@ + crate::strings::spec_join(webp, ", "@)
            + "\" sizes=\""@ + res.sizes@ + "\" />\n"@
    } else {
        Seq::empty()
    };
    let fallback: Seq<char> = match spec_first_non_webp(res.images@, 0) {
        Some(j) => spec_img_elt(res.images@[j], alt, cls),
        None => if res.images@.len() > 0 {
            spec_img_elt(res.images@[0], alt, cls)
        } else {
            Seq::empty()
        },
    };
    "<picture>\n"@ + src + fallback + "</picture>"@
}

fn webp_srcset(vs: &Vec<ResponsiveImageVariant>, i: usize) -> (r: Vec<String>)
    requires
        i <= vs@.len(),
    ensures
        r@.map_values(|s: String| s@) == spec_webp_srcset(vs@, i as int),
    decreases vs@.len() - i,
{
    if i >= vs.len() {
        let r: Vec<String> = Vec::new();
        proof {
            assert(r@.map_values(|s: String| s@) =~= spec_webp_srcset(vs@, i as int));
        }
        r
    } else {
        let rest = webp_srcset(vs, i + 1);
        if matches!(vs[i].format, OutputFormat::WebP) {
            let mut entry = vs[i].path.clone();
            entry.push(' ');
            push_dec(&mut entry, vs[i].width as u64);
            entry.push('w');
            let ghost entryv = entry@;
            proof {
                assert(entryv =~= vs@[i as int].path@ + seq![' '] + spec_dec(
                    vs@[i as int].width as int,
                ) + seq!['w']);
            }
            let mut out: Vec<String> = Vec::new();
            out.push(entry);
            let mut k: usize = 0;
            let ghost base = out@.map_values(|s: String| s@);
            proof {
                assert(base =~= seq![entryv]);
            }
            while k < rest.len()
                invariant
                    k <= rest@.len(),
                    out@.map_values(|s: String| s@) =~= base + rest@.map_values(
                        |s: String| s@,
                    ).take(k as int),
                decreases rest@.len() - k,
            {
                let ghost po = out@.map_values(|s: String| s@);
                out.push(rest[k].clone());
                proof {
                    assert(out@.map_values(|s: String| s@) =~= po.push(rest@[k as int]@));
                    assert(rest@.map_values(|s: String| s@).take(k + 1) =~= rest@.map_values(
                        |s: String| s@,
                    ).take(k as int).push(rest@[k as int]@));
                }
                k += 1;
            }
            proof {
                assert(rest@.map_values(|s: String| s@).take(rest@.len() as int)
                    =~= rest@.map_values(|s: String| s@));
                assert(out@.map_values(|s: String| s@) =~= spec_webp_srcset(vs@, i as int));
            }
            out
        } else {
            proof {
                assert(rest@.map_values(|s: String| s@) =~= spec_webp_srcset(vs@, i as int));
            }
            rest
        }
    }
}

fn first_non_webp(vs: &Vec<ResponsiveImageVariant>, i: usize) -> (r: Option<usize>)
    requires
        i <= vs@.len(),
    ensures
        match r {
            Some(j) => spec_first_non_webp(vs@, i as int) == Some(j as int) && j < vs@.len(),
            None => spec_first_non_webp(vs@, i as int) is None,
        },
    decreases vs@.len() - i,
{
    if i >= vs.len() {
        None
    } else if !matches!(vs[i].format, OutputFormat::WebP) {
        Some(i)
    } else {
        first_non_webp(vs, i + 1)
    }
}

fn img_elt(v: &ResponsiveImageVariant, alt: &str, cls: &str) -> (r: String)
    ensures
        r@ == spec_img_elt(*v, alt@, cls@),
{
    proof {
        reveal_strlit("  <img src=\"");
        reveal_strlit("\" alt=\"");
        reveal_strlit("\" width=\"");
        reveal_strlit("\" height=\"");
        reveal_strlit("\"");
        reveal_strlit(" loading=\"lazy\" />\n");
    }
    let mut out = String::from_str("  <img src=\"");
    out.append(v.path.as_str());
    out.append("\" alt=\"");
    out.append(alt);
    out.append("\" width=\"");
    push_dec(&mut out, v.width as u64);
    out.append("\" height=\"");
    push_dec(&mut out, v.height as u64);
    out.append("\"");
    out.append(cls);
    out.append(" loading=\"lazy\" />\n");
    out
}

impl Renderer {
    /// Writes the `picture` markup for a responsive rendering: a WebP
    /// `source` element where WebP variants exist, and a fallback `img`.
    pub fn render_responsive_html(
        &self,
        result: &ResponsiveImageResult,
        alt_text: &str,
        class: Option<&str>,
    ) -> (r: String)
        ensures
            r@ == spec_picture_html(result, alt_text@, class),
    {
        proof {
            reveal_strlit(" class=\"");
            reveal_strlit("\"");
            reveal_strlit("<picture>\n");
            reveal_strlit("  <source type=\"image/webp\" srcset=\"");
            reveal_strlit("\" sizes=\"");
            reveal_strlit("\" />\n");
            reveal_strlit("</picture>");
            reveal_strlit(", ");
        }
        let class_attr: String = match class {
            Some(c) => {
                let mut a = String::from_str(" class=\"");
                a.append(c);
                a.append("\"");
                a
            },
            None => String::new(),
        };
        let webp = webp_srcset(&result.images, 0);
        let mut html = String::from_str("<picture>\n");
        if webp.len() > 0 {
            proof {
                assert(spec_webp_srcset(result.images@, 0).len() == webp@.map_values(
                    |s: String| s@,
                ).len());
            }
            html.append("  <source type=\"image/webp\" srcset=\"");
            let joined = crate::strings::join_strings(&webp, ", ");
            html.append(joined.as_str());
            html.append("\" sizes=\"");
            html.append(result.sizes.as_str());
            html.append("\" />\n");
        } else {
            proof {
                assert(spec_webp_srcset(result.images@, 0).len() == webp@.map_values(
                    |s: String| s@,
                ).len());
            }
        }
        match first_non_webp(&result.images, 0) {
            Some(j) => {
                let elt = img_elt(&result.images[j], alt_text, class_attr.as_str());
                html.append(elt.as_str());
            },
            None => {
                if result.images.len() > 0 {
                    let elt = img_elt(&result.images[0], alt_text, class_attr.as_str());
                    html.append(elt.as_str());
                }
            },
        }
        html.append("</picture>");
        html
    }
}

/// Extension classification round trip: a format's own extension, put
/// through the ASCII lowercase mapping, classifies back to the format.
pub proof fn lemma_output_format_extension_round_trip(f: OutputFormat)
    ensures
        spec_format_of_ext(
            spec_ascii_lower(
                match f {
                    OutputFormat::Png => "png"@,
                    OutputFormat::Jpeg => "jpg"@,
                    OutputFormat::WebP => "webp"@,
                    OutputFormat::Svg => "svg"@,
                },
            ),
        ) == Some(f),
{
    reveal_strlit("png");
    reveal_strlit("jpg");
    reveal_strlit("jpeg");
    reveal_strlit("webp");
    reveal_strlit("svg");
    match f {
        OutputFormat::Png => {
            assert(spec_ascii_lower("png"@) =~= "png"@);
        },
        OutputFormat::Jpeg => {
            assert(spec_ascii_lower("jpg"@) =~= "jpg"@);
            assert("jpg"@[0] == 'j' && "png"@[0] == 'p');
            assert("jpg"@ != "png"@);
        },
        OutputFormat::WebP => {
            assert(spec_ascii_lower("webp"@) =~= "webp"@);
            assert("webp"@[0] == 'w' && "png"@[0] == 'p' && "jpg"@[0] == 'j' && "jpeg"@[0]
                == 'j');
            assert("webp"@ != "png"@ && "webp"@ != "jpg"@ && "webp"@ != "jpeg"@);
        },
        OutputFormat::Svg => {
            assert(spec_ascii_lower("svg"@) =~= "svg"@);
            assert("svg"@[0] == 's' && "png"@[0] == 'p' && "jpg"@[0] == 'j' && "jpeg"@[0]
                == 'j' && "webp"@[0] == 'w');
            assert("svg"@ != "png"@ && "svg"@ != "jpg"@ && "svg"@ != "jpeg"@ && "svg"@
                != "webp"@);
        },
    }
}

} // verus!
