//! Plain-text extraction from a markup fragment: the markup is parsed by
//! an outside HTML parser, the text nodes of the body subtree (or of the
//! whole document when no body exists) are joined, any text that
//! originated inside script or style subtrees is removed again by
//! content, and whitespace runs are collapsed to single spaces.
use crate::strutil::chars_to_string;
use crate::strutil::collapse_whitespace;
use crate::strutil::collapse_ws_spec;
use crate::strutil::join_space;
use crate::strutil::remove_all;
use crate::strutil::remove_list;
use crate::strutil::str_to_chars;
use vstd::prelude::*;

verus! {

/// The text nodes under the first `body` element of the markup, in
/// document order, or nothing when the parsed tree has no body.
pub uninterp spec fn markup_body_texts(s: Seq<char>) -> Option<Seq<Seq<char>>>;

/// The text nodes of the whole parsed document, in document order.
pub uninterp spec fn markup_all_texts(s: Seq<char>) -> Seq<Seq<char>>;

/// The text nodes inside `script` and `style` elements of the parsed
/// document, in document order.
pub uninterp spec fn markup_script_texts(s: Seq<char>) -> Seq<Seq<char>>;

/// Relies on scraper's `Html::parse_document`, `Html::select` with the
/// `body` selector and `ElementRef::text`: the text nodes under the first
/// body element, a function of the markup alone.
#[verifier::external_body]
fn body_text_nodes(html: &str) -> (r: Option<Vec<String>>)
    ensures
        r.deep_view() == markup_body_texts(html@),
{
    let doc = scraper::Html::parse_document(html);
    let sel = scraper::Selector::parse("body").ok()?;
    let body = doc.select(&sel).next()?;
    Some(body.text().map(|t| t.to_string()).collect())
}

/// Relies on scraper's `Html::parse_document`, `Html::root_element` and
/// `ElementRef::text`: every text node of the document, a function of the
/// markup alone.
#[verifier::external_body]
fn all_text_nodes(html: &str) -> (r: Vec<String>)
    ensures
        r.deep_view() == markup_all_texts(html@),
{
    let doc = scraper::Html::parse_document(html);
    doc.root_element().text().map(|t| t.to_string()).collect()
}

/// Relies on scraper's `Html::parse_document` and `Html::select` with the
/// `script, style` selector: the text nodes inside script and style
/// elements, a function of the markup alone.
#[verifier::external_body]
fn script_style_text_nodes(html: &str) -> (r: Vec<String>)
    ensures
        r.deep_view() == markup_script_texts(html@),
{
    let doc = scraper::Html::parse_document(html);
    let sel = match scraper::Selector::parse("script, style") {
        Ok(s) => s,
        Err(_) => return Vec::new(),
    };
    doc.select(&sel).flat_map(|el| el.text().map(|t| t.to_string())).collect()
}

fn push_all(out: &mut Vec<char>, s: &str)
    ensures
        final(out)@ == old(out)@ + s@,
{
    let cs = str_to_chars(s);
    let mut i: usize = 0;
    proof {
        assert(old(out)@ + cs@.take(0) =~= old(out)@);
    }
    while i < cs.len()
        invariant
            i <= cs@.len(),
            cs@ == s@,
            out@ == old(out)@ + cs@.take(i as int),
        decreases cs@.len() - i,
    {
        proof {
            assert(cs@.take(i as int).push(cs@[i as int]) =~= cs@.take(i as int + 1));
            assert((old(out)@ + cs@.take(i as int)) + seq![cs@[i as int]] =~= old(out)@ + cs@.take(
                i as int + 1,
            ));
        }
        out.push(cs[i]);
        i = i + 1;
    }
    proof {
        assert(cs@.take(cs@.len() as int) =~= cs@);
    }
}

pub fn join_with_space(texts: &Vec<String>) -> (r: Vec<char>)
    ensures
        r@ == join_space(texts.deep_view()),
{
    let ghost ts = texts.deep_view();
    proof {
        assert(ts.len() == texts@.len());
    }
    let mut out: Vec<char> = Vec::new();
    let mut k: usize = 0;
    while k < texts.len()
        invariant
            k <= ts.len(),
            ts == texts.deep_view(),
            ts.len() == texts@.len(),
            k == 0 ==> out@.len() == 0,
            k > 0 ==> join_space(ts) == (if ts.skip(k as int).len() == 0 {
                out@
            } else {
                out@ + seq![' '] + join_space(ts.skip(k as int))
            }),
        decreases ts.len() - k,
    {
        let ghost out0 = out@;
        proof {
            assert(ts[k as int] == texts@[k as int]@);
            assert(ts.skip(k as int)[0] == ts[k as int]);
            assert(ts.skip(k as int).drop_first() =~= ts.skip(k as int + 1));
        }
        if k > 0 {
            out.push(' ');
        }
        push_all(&mut out, texts[k].as_str());
        proof {
            let rest = ts.skip(k as int);
            let rest2 = ts.skip(k as int + 1);
            if rest.len() == 1 {
                assert(join_space(rest) == ts[k as int]);
            } else {
                assert(join_space(rest) == ts[k as int] + seq![' '] + join_space(rest2));
            }
            if k == 0 {
                assert(rest =~= ts);
                assert(out@ =~= Seq::<char>::empty() + ts[0]);
                assert(out@ =~= ts[0]);
                if ts.len() > 1 {
                    assert(join_space(ts) =~= out@ + seq![' '] + join_space(rest2));
                }
            } else {
                assert(out@ =~= (out0 + seq![' ']) + ts[k as int]);
                if rest2.len() == 0 {
                    assert(join_space(rest) == ts[k as int]);
                    assert(join_space(ts) =~= out@);
                } else {
                    assert(out0 + seq![' '] + (ts[k as int] + seq![' '] + join_space(rest2)) =~= out@
                        + seq![' '] + join_space(rest2));
                }
            }
        }
        k = k + 1;
    }
    proof {
        if ts.len() == 0 {
            assert(out@ =~= join_space(ts));
        } else {
            assert(ts.skip(k as int).len() == 0);
        }
    }
    out
}

/// What extraction returns for the given markup: the body text nodes (or
/// all text nodes when no body exists) joined with spaces, script and
/// style text removed by content, whitespace collapsed and trimmed.
pub open spec fn extract_spec(html: Seq<char>) -> Seq<char> {
    let texts = match markup_body_texts(html) {
        Some(ts) => ts,
        None => markup_all_texts(html),
    };
    collapse_ws_spec(remove_list(join_space(texts), markup_script_texts(html)))
}

/// Converts a markup fragment to normalized plain text.
pub fn extract_text_from_html(html: &str) -> (r: String)
    ensures
        r@ == extract_spec(html@),
{
    let texts: Vec<String> = match body_text_nodes(html) {
        Some(t) => t,
        None => all_text_nodes(html),
    };
    let ghost ts = match markup_body_texts(html@) {
        Some(ts) => ts,
        None => markup_all_texts(html@),
    };
    proof {
        assert(texts.deep_view() == ts);
    }
    let joined = join_with_space(&texts);
    let pats = script_style_text_nodes(html);
    let ghost pseq = markup_script_texts(html@);
    let ghost target = remove_list(join_space(ts), pseq);
    let mut cur = joined;
    let mut k: usize = 0;
    proof {
        assert(pseq.skip(0) =~= pseq);
        assert(pats.deep_view().len() == pats@.len());
    }
    while k < pats.len()
        invariant
            k <= pats@.len(),
            pats.deep_view() == pseq,
            pseq.len() == pats@.len(),
            target == remove_list(cur@, pseq.skip(k as int)),
        decreases pats@.len() - k,
    {
        let pat = str_to_chars(pats[k].as_str());
        proof {
            assert(pseq.skip(k as int)[0] == pseq[k as int]);
            assert(pseq[k as int] == pats@[k as int]@);
            assert(pseq.skip(k as int).drop_first() =~= pseq.skip(k as int + 1));
        }
        cur = remove_all(&cur, &pat);
        k = k + 1;
    }
    proof {
        assert(pseq.skip(k as int) =~= Seq::<Seq<char>>::empty());
        assert(target == cur@);
    }
    let collapsed = collapse_whitespace(&cur);
    chars_to_string(&collapsed)
}

} // verus!
