//! The two outbound wire message bodies, built as plain text in the fixed
//! shape the update service expects: an XML declaration, the protocol
//! header, and a `Put` block of named data fields.

use vstd::prelude::*;

verus! {

use crate::text::{push_char, split_on, split_str};
use vstd::string::{StrSliceExecFns, StringExecFns};

/// The document declaration written before the first element.
pub open spec fn xml_decl() -> Seq<char> {
    "<?xml version=\"1.0\" encoding=\"utf-8\"?>"@
}

/// One character of field text, with the XML metacharacters replaced by
/// their entities.
pub open spec fn escaped_char(c: char) -> Seq<char> {
    if c == '&' {
        "&amp;"@
    } else if c == '<' {
        "&lt;"@
    } else if c == '>' {
        "&gt;"@
    } else {
        seq![c]
    }
}

/// Field text with `&`, `<` and `>` replaced by their entities.
pub open spec fn escaped(s: Seq<char>) -> Seq<char>
    decreases s.len(),
{
    if s.len() == 0 {
        Seq::empty()
    } else {
        escaped(s.drop_last()) + escaped_char(s.last())
    }
}

/// Escape field text for use inside an element.
pub fn xml_escape(s: &str) -> (r: String)
    ensures
        r@ == escaped(s@),
{
    let len = s.unicode_len();
    let mut out = String::new();
    let mut i: usize = 0;
    while i < len
        invariant
            i <= len,
            len == s@.len(),
            out@ == escaped(s@.take(i as int)),
        decreases len - i,
    {
        let c = s.get_char(i);
        proof {
            assert(s@.take(i + 1).drop_last() =~= s@.take(i as int));
            assert(s@.take(i + 1).last() == s@[i as int]);
        }
        if c == '&' {
            out.append("&amp;");
        } else if c == '<' {
            out.append("&lt;");
        } else if c == '>' {
            out.append("&gt;");
        } else {
            push_char(&mut out, c);
        }
        i = i + 1;
    }
    proof {
        assert(s@.take(len as int) =~= s@);
    }
    out
}

/// One `Put` field: an element of the given name holding a `Data` child
/// with the escaped field text.
pub open spec fn element_spec(name: Seq<char>, data: Seq<char>) -> Seq<char> {
    seq!['<'] + name + seq!['>'] + "<Data>"@ + escaped(data) + "</Data></"@ + name + seq!['>']
}

/// Append one `Put` field to a message body under construction; on an
/// empty buffer the document declaration is written first, as a writer
/// emits it before its first element.
pub fn fus_attr(buf: &mut String, name: &str, data: &str)
    ensures
        final(buf)@ == (if old(buf)@.len() == 0 { xml_decl() } else { old(buf)@ })
            + element_spec(name@, data@),
{
    if buf.as_str().unicode_len() == 0 {
        buf.append("<?xml version=\"1.0\" encoding=\"utf-8\"?>");
    }
    let ghost opened = buf@;
    push_char(buf, '<');
    buf.append(name);
    push_char(buf, '>');
    buf.append("<Data>");
    let escaped_data = xml_escape(data);
    buf.append(escaped_data.as_str());
    buf.append("</Data></");
    buf.append(name);
    push_char(buf, '>');
    proof {
        assert(buf@ =~= opened + element_spec(name@, data@));
    }
}

/// The fields of a `Put` block, in order.
pub open spec fn put_body(attrs: Seq<(String, String)>) -> Seq<char>
    decreases attrs.len(),
{
    if attrs.len() == 0 {
        Seq::empty()
    } else {
        put_body(attrs.drop_last()) + element_spec(attrs.last().0@, attrs.last().1@)
    }
}

/// A complete wire message: declaration, protocol header, and a `Put`
/// block holding the given fields (self-closed when there are none).
pub open spec fn fus_xml_spec(attrs: Seq<(String, String)>) -> Seq<char> {
    xml_decl() + "<FUSMsg><FUSHdr><ProtoVer>1.0</ProtoVer></FUSHdr><FUSBody>"@ + (if attrs.len()
        == 0 {
        "<Put />"@
    } else {
        "<Put>"@ + put_body(attrs) + "</Put>"@
    }) + "</FUSBody></FUSMsg>"@
}

/// Build a complete wire message around the given `Put` fields.
pub fn fus_xml(attrs: &Vec<(String, String)>) -> (r: String)
    ensures
        r@ == fus_xml_spec(attrs@),
{
    let mut buf = String::new();
    buf.append("<?xml version=\"1.0\" encoding=\"utf-8\"?>");
    buf.append("<FUSMsg><FUSHdr><ProtoVer>1.0</ProtoVer></FUSHdr><FUSBody>");
    let ghost header = buf@;
    proof {
        reveal_strlit("<?xml version=\"1.0\" encoding=\"utf-8\"?>");
    }
    if attrs.len() == 0 {
        buf.append("<Put />");
    } else {
        buf.append("<Put>");
        let mut i: usize = 0;
        while i < attrs.len()
            invariant
                i <= attrs@.len(),
                buf@ == header + "<Put>"@ + put_body(attrs@.take(i as int)),
                buf@.len() > 0,
            decreases attrs@.len() - i,
        {
            fus_attr(&mut buf, attrs[i].0.as_str(), attrs[i].1.as_str());
            proof {
                assert(attrs@.take(i + 1).drop_last() =~= attrs@.take(i as int));
                assert(attrs@.take(i + 1).last() == attrs@[i as int]);
                assert(buf@ =~= header + "<Put>"@ + put_body(attrs@.take(i + 1)));
            }
            i = i + 1;
        }
        proof {
            assert(attrs@.take(attrs@.len() as int) =~= attrs@);
        }
        buf.append("</Put>");
    }
    buf.append("</FUSBody></FUSMsg>");
    proof {
        assert(buf@ =~= fus_xml_spec(attrs@));
    }
    buf
}

/// The body of a binary-information request.
pub open spec fn file_info_spec(
    model: Seq<char>,
    imei: Seq<char>,
    region: Seq<char>,
    version: Seq<char>,
    check: Seq<char>,
) -> Seq<char> {
    xml_decl() + "<FUSMsg><FUSHdr><ProtoVer>1.0</ProtoVer></FUSHdr><FUSBody>"@ + "<Put>"@
        + element_spec("ACCESS_MODE"@, "2"@) + element_spec("BINARY_NATURE"@, "1"@)
        + element_spec("CLIENT_PRODUCT"@, "Smart Switch"@)
        + element_spec("DEVICE_IMEI_PUSH"@, imei) + element_spec("DEVICE_FW_VERSION"@, version)
        + element_spec("DEVICE_LOCAL_CODE"@, region) + element_spec("DEVICE_MODEL_NAME"@, model)
        + element_spec("LOGIC_CHECK"@, check) + "</Put>"@ + "</FUSBody></FUSMsg>"@
}

/// Build the binary-information request body, carrying the integrity
/// token computed over the firmware version.
pub fn file_info(model: &str, imei: &str, region: &str, version: &str, check: &str) -> (r: String)
    ensures
        r@ == file_info_spec(model@, imei@, region@, version@, check@),
{
    let mut buf = String::new();
    buf.append("<?xml version=\"1.0\" encoding=\"utf-8\"?>");
    buf.append("<FUSMsg><FUSHdr><ProtoVer>1.0</ProtoVer></FUSHdr><FUSBody>");
    buf.append("<Put>");
    proof {
        reveal_strlit("<?xml version=\"1.0\" encoding=\"utf-8\"?>");
    }
    fus_attr(&mut buf, "ACCESS_MODE", "2");
    fus_attr(&mut buf, "BINARY_NATURE", "1");
    fus_attr(&mut buf, "CLIENT_PRODUCT", "Smart Switch");
    fus_attr(&mut buf, "DEVICE_IMEI_PUSH", imei);
    fus_attr(&mut buf, "DEVICE_FW_VERSION", version);
    fus_attr(&mut buf, "DEVICE_LOCAL_CODE", region);
    fus_attr(&mut buf, "DEVICE_MODEL_NAME", model);
    fus_attr(&mut buf, "LOGIC_CHECK", check);
    buf.append("</Put>");
    buf.append("</FUSBody></FUSMsg>");
    proof {
        assert(buf@ =~= file_info_spec(model@, imei@, region@, version@, check@));
    }
    buf
}

/// The body of a download-initialisation request.
pub open spec fn init_download_spec(file: Seq<char>, check: Seq<char>) -> Seq<char> {
    xml_decl() + "<FUSMsg><FUSHdr><ProtoVer>1.0</ProtoVer></FUSHdr><FUSBody>"@ + "<Put>"@
        + element_spec("BINARY_FILE_NAME"@, file) + element_spec("LOGIC_CHECK"@, check)
        + "</Put>"@ + "</FUSBody></FUSMsg>"@
}

/// Build the download-initialisation request body, carrying the binary
/// filename and the integrity token computed over its base name.
pub fn init_download(file: &str, check: &str) -> (r: String)
    ensures
        r@ == init_download_spec(file@, check@),
{
    let mut buf = String::new();
    buf.append("<?xml version=\"1.0\" encoding=\"utf-8\"?>");
    buf.append("<FUSMsg><FUSHdr><ProtoVer>1.0</ProtoVer></FUSHdr><FUSBody>");
    buf.append("<Put>");
    proof {
        reveal_strlit("<?xml version=\"1.0\" encoding=\"utf-8\"?>");
    }
    fus_attr(&mut buf, "BINARY_FILE_NAME", file);
    fus_attr(&mut buf, "LOGIC_CHECK", check);
    buf.append("</Put>");
    buf.append("</FUSBody></FUSMsg>");
    proof {
        assert(buf@ =~= init_download_spec(file@, check@));
    }
    buf
}

/// The source text of the integrity token on a download-initialisation
/// request: the last 16 characters of the filename's base name (the part
/// before the first dot), where the base name is long enough to supply
/// them.
pub open spec fn init_check_source(filename: Seq<char>) -> Option<Seq<char>> {
    let base = split_on(filename, '.')[0];
    if base.len() >= 16 {
        Some(base.skip(base.len() - 16))
    } else {
        None
    }
}

/// The text the download-initialisation integrity token is computed over.
pub fn init_check_input(filename: &str) -> (r: Option<String>)
    ensures
        match r {
            Some(t) => init_check_source(filename@) == Some(t@),
            None => init_check_source(filename@) is None,
        },
{
    let parts = split_str(filename, '.');
    let base = &parts[0];
    proof {
        assert(parts.deep_view()[0] == parts@[0]@);
    }
    let blen = base.as_str().unicode_len();
    if blen < 16 {
        return None;
    }
    let tail = base.as_str().substring_char(blen - 16, blen);
    proof {
        assert(tail@ =~= split_on(filename@, '.')[0].skip(blen - 16));
    }
    Some(tail.to_owned())
}

} // verus!
