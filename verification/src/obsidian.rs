//! Client-side protection: the script for a page, and where it goes.

use vstd::prelude::*;
use vstd::string::StringExecFns;
use vstd::utf8::{encode_utf8, valid_utf8};
use crate::json::{flag_at, text_at, Json};
use crate::text::same;

verus! {

/// Keeps the context menu shut.
pub const RIGHT_CLICK_GUARD: &'static str = "document.addEventListener('contextmenu',e=>e.preventDefault());";

/// Swallows the keys that open the developer tools.
pub const DEVTOOLS_GUARD: &'static str = "document.onkeydown=function(e){if(e.keyCode==123||(e.ctrlKey&&e.shiftKey&&e.keyCode=='I'.charCodeAt(0))||(e.ctrlKey&&e.shiftKey&&e.keyCode=='J'.charCodeAt(0))||(e.ctrlKey&&e.keyCode=='U'.charCodeAt(0)))return false;};";

/// Marks what is copied.
pub const COPY_GUARD: &'static str = "document.addEventListener('copy',function(e){try{var t=(e.clipboardData||window.clipboardData);if(!t)return;var s=window.getSelection?String(window.getSelection()):'';if(!s)return;t.setData('text/plain',s+'\\n\\n[Protected by Relintio]');e.preventDefault();}catch(_e){}});";

/// Puts joiners between the letters of the page.
pub const TEXT_SCRAMBLER: &'static str = "(function(){function s(n){if(n.nodeType===3){n.nodeValue=n.nodeValue.split('').join('\\u200C');}else if(n.nodeType===1&&n.tagName!=='SCRIPT'&&n.tagName!=='STYLE'){for(var i=0;i<n.childNodes.length;i++){s(n.childNodes[i]);}}}}window.addEventListener('load',function(){try{s(document.body);}catch(_e){}},{once:true});})();";

/// Adds class names all over the page.
pub const AGGRESSIVE_CLASS_NOISE: &'static str = "(function(){function run(){try{var n=['ax-99','bz-22','c-al'];var all=document.querySelectorAll('*');for(var j=0;j<all.length;j++){all[j].classList.add(n[Math.floor(Math.random()*n.length)]);}}catch(_e){}}window.addEventListener('load',function(){setTimeout(run,50);},{once:true});})();";

/// Adds class names all over a page that no framework drives.
pub const COMPATIBLE_CLASS_NOISE: &'static str = "(function(){function run(){try{var roots=['#app','#__next','[data-reactroot]'];for(var i=0;i<roots.length;i++){if(document.querySelector(roots[i]))return;}var n=['ax-99','bz-22','c-al'];var all=document.querySelectorAll('*');for(var j=0;j<all.length;j++){all[j].classList.add(n[Math.floor(Math.random()*n.length)]);}}catch(_e){}}if('requestIdleCallback' in window){requestIdleCallback(run,{timeout:1200});}else{window.addEventListener('load',function(){setTimeout(run,250);});}})();";

/// The `id` of the script element.
pub const SCRIPT_ID: &'static str = "relintio-obsidian";

/// The longest page that is touched, in bytes.
pub const MAX_BODY_BYTES: usize = 2_097_152;

/// Puts the protection script into pages.
pub struct ObsidianInjector {
    pub script_id: &'static str,
    pub max_body_bytes: usize,
}

// ---------------------------------------------------------------------------
// What is injected, and where
// ---------------------------------------------------------------------------

/// `text` where `wanted`, nothing otherwise.
pub open spec fn when(wanted: bool, text: Seq<char>) -> Seq<char> {
    if wanted {
        text
    } else {
        Seq::empty()
    }
}

/// The policy asks for the aggressive mode.
pub open spec fn aggressive(rules: Json) -> bool {
    text_at(rules, "obsidian_mode"@) == Some("aggressive"@)
}

/// The script that a policy asks for: one part for each guard that it switches
/// on.
pub open spec fn client_script(rules: Json) -> Seq<char> {
    when(flag_at(rules, "guard_rightclick"@), RIGHT_CLICK_GUARD@) + when(
        flag_at(rules, "guard_devtools"@),
        DEVTOOLS_GUARD@,
    ) + when(flag_at(rules, "guard_copy"@), COPY_GUARD@) + when(
        flag_at(rules, "obsidian_text"@) && aggressive(rules),
        TEXT_SCRAMBLER@,
    ) + when(
        flag_at(rules, "obsidian_css"@),
        if aggressive(rules) {
            AGGRESSIVE_CLASS_NOISE@
        } else {
            COMPATIBLE_CLASS_NOISE@
        },
    )
}

/// The script element.
pub open spec fn script_element(id: Seq<char>, script: Seq<char>) -> Seq<char> {
    "<script id=\""@ + id + "\">"@ + script + "</script>"@
}

/// An ASCII capital in lower case; any other byte as it is.
pub open spec fn fold(b: u8) -> u8 {
    if 65 <= b <= 90 {
        (b + 32) as u8
    } else {
        b
    }
}

/// `tag`, in whatever case, stands in `body` at position `i`.
pub open spec fn tag_at(body: Seq<u8>, tag: Seq<u8>, i: int) -> bool {
    &&& 0 <= i
    &&& i + tag.len() <= body.len()
    &&& forall|j: int| 0 <= j < tag.len() ==> fold(body[i + j]) == #[trigger] tag[j]
}

/// The last position before `n` at which `tag` stands; -1 where there is none.
pub open spec fn last_tag_before(body: Seq<u8>, tag: Seq<u8>, n: int) -> int
    decreases n,
{
    if n <= 0 {
        -1
    } else if tag_at(body, tag, n - 1) {
        n - 1
    } else {
        last_tag_before(body, tag, n - 1)
    }
}

/// The last position at which `tag` stands; -1 where there is none.
pub open spec fn last_tag(body: Seq<u8>, tag: Seq<u8>) -> int {
    last_tag_before(body, tag, body.len() as int)
}

/// `<html` in ASCII.
pub open spec fn page_start() -> Seq<u8> {
    seq![60u8, 104u8, 116u8, 109u8, 108u8]
}

/// `</body>` in ASCII.
pub open spec fn body_end() -> Seq<u8> {
    seq![60u8, 47u8, 98u8, 111u8, 100u8, 121u8, 62u8]
}

/// `body` is a page that is touched: text, not too long, with an `<html` tag.
pub open spec fn is_page(body: Seq<u8>, max_body_bytes: int) -> bool {
    &&& 0 < body.len() <= max_body_bytes
    &&& valid_utf8(body)
    &&& last_tag(body, page_start()) >= 0
}

/// `body` with `element` before its last `</body>`, or at its end where it has
/// none.
pub open spec fn spliced(body: Seq<u8>, element: Seq<u8>) -> Seq<u8> {
    let i = last_tag(body, body_end());
    if i >= 0 {
        body.take(i) + element + body.skip(i)
    } else {
        body + element
    }
}

/// What becomes of a response body.
pub open spec fn injected(injector: ObsidianInjector, body: Seq<u8>, rules: Json) -> Seq<u8> {
    if is_page(body, injector.max_body_bytes as int) && client_script(rules).len() > 0 {
        spliced(body, encode_utf8(script_element(injector.script_id@, client_script(rules))))
    } else {
        body
    }
}

// ---------------------------------------------------------------------------
// Injection
// ---------------------------------------------------------------------------

/// `std::str::from_utf8`: whether the bytes are UTF-8.
#[verifier::external_body]
pub(crate) fn is_utf8(bytes: &[u8]) -> (r: bool)
    ensures
        r == valid_utf8(bytes@),
{
    std::str::from_utf8(bytes).is_ok()
}

/// Whether `tag`, in whatever case, stands in `body` at position `i`.
fn has_tag(body: &[u8], tag: &[u8], i: usize) -> (r: bool)
    ensures
        r == tag_at(body@, tag@, i as int),
{
    if tag.len() > body.len() || i > body.len() - tag.len() {
        return false;
    }
    let mut j: usize = 0;
    while j < tag.len()
        invariant
            j <= tag@.len(),
            i + tag@.len() <= body.len(),
            forall|k: int| 0 <= k < j ==> fold(body@[i + k]) == #[trigger] tag@[k],
        decreases tag@.len() - j,
    {
        let b: u8 = body[i + j];
        let folded: u8 = if 65 <= b && b <= 90 {
            b + 32
        } else {
            b
        };
        if folded != tag[j] {
            return false;
        }
        j = j + 1;
    }
    true
}

/// The last position at which `tag` stands in `body`, in whatever case.
fn find_last_tag(body: &[u8], tag: &[u8]) -> (r: Option<usize>)
    ensures
        match r {
            Some(i) => i == last_tag(body@, tag@) && i < body@.len(),
            None => last_tag(body@, tag@) == -1,
        },
{
    let mut n: usize = body.len();
    while n > 0
        invariant
            n <= body@.len(),
            last_tag(body@, tag@) == last_tag_before(body@, tag@, n as int),
        decreases n,
    {
        if has_tag(body, tag, n - 1) {
            return Some(n - 1);
        }
        n = n - 1;
    }
    None
}

impl Default for ObsidianInjector {
    fn default() -> (r: Self)
        ensures
            r.script_id@ == SCRIPT_ID@,
            r.max_body_bytes == MAX_BODY_BYTES,
    {
        ObsidianInjector { script_id: SCRIPT_ID, max_body_bytes: MAX_BODY_BYTES }
    }
}

impl ObsidianInjector {
    /// An injector with the usual element and limit.
    pub fn new() -> (r: Self)
        ensures
            r.script_id@ == SCRIPT_ID@,
            r.max_body_bytes == MAX_BODY_BYTES,
    {
        ObsidianInjector { script_id: SCRIPT_ID, max_body_bytes: MAX_BODY_BYTES }
    }

    /// Build the client-side protection script that a policy asks for.
    pub fn build_client_script(&self, rules: &Json) -> (r: String)
        ensures
            r@ == client_script(*rules),
    {
        let mut js = String::new();
        if rules.get_flag("guard_rightclick") {
            js.append(RIGHT_CLICK_GUARD);
        }
        if rules.get_flag("guard_devtools") {
            js.append(DEVTOOLS_GUARD);
        }
        if rules.get_flag("guard_copy") {
            js.append(COPY_GUARD);
        }
        let aggressive_mode = match rules.get_str("obsidian_mode") {
            Some(mode) => same(mode, "aggressive"),
            None => false,
        };
        if rules.get_flag("obsidian_text") && aggressive_mode {
            js.append(TEXT_SCRAMBLER);
        }
        if rules.get_flag("obsidian_css") {
            if aggressive_mode {
                js.append(AGGRESSIVE_CLASS_NOISE);
            } else {
                js.append(COMPATIBLE_CLASS_NOISE);
            }
        }
        assert(js@ =~= client_script(*rules));
        js
    }

    /// Put the script before the end of the body of a page. Anything that is not
    /// a page, or for which there is no script, comes back as it is.
    pub fn inject_into_html(&self, body: &[u8], rules: &Json) -> (r: Vec<u8>)
        ensures
            r@ == injected(*self, body@, *rules),
    {
        if body.len() == 0 || body.len() > self.max_body_bytes {
            return vstd::slice::slice_to_vec(body);
        }
        if !is_utf8(body) {
            return vstd::slice::slice_to_vec(body);
        }
        let html: [u8; 5] = [60, 104, 116, 109, 108];
        assert(html@ =~= page_start());
        if find_last_tag(body, html.as_slice()).is_none() {
            return vstd::slice::slice_to_vec(body);
        }
        let script = self.build_client_script(rules);
        if script.as_str().is_empty() {
            return vstd::slice::slice_to_vec(body);
        }
        let mut element = String::new();
        element.append("<script id=\"");
        element.append(self.script_id);
        element.append("\">");
        element.append(script.as_str());
        element.append("</script>");
        assert(element@ =~= script_element(self.script_id@, script@));
        let bytes = element.as_str().as_bytes();
        let closing: [u8; 7] = [60, 47, 98, 111, 100, 121, 62];
        assert(closing@ =~= body_end());
        match find_last_tag(body, closing.as_slice()) {
            Some(i) => {
                let before = vstd::slice::slice_subrange(body, 0, i);
                let after = vstd::slice::slice_subrange(body, i, body.len());
                let mut page: Vec<u8> = vstd::slice::slice_to_vec(before);
                page.extend_from_slice(bytes);
                page.extend_from_slice(after);
                assert(page@ =~= spliced(body@, bytes@));
                page
            },
            None => {
                let mut page: Vec<u8> = vstd::slice::slice_to_vec(body);
                page.extend_from_slice(bytes);
                assert(page@ =~= spliced(body@, bytes@));
                page
            },
        }
    }
}

// ---------------------------------------------------------------------------
// Laws
// ---------------------------------------------------------------------------

/// Where the last tag is found, and that none stands behind it.
proof fn last_tag_points(body: Seq<u8>, tag: Seq<u8>, n: int)
    requires
        0 <= n <= body.len(),
    ensures
        -1 <= last_tag_before(body, tag, n) < n || n == 0 && last_tag_before(body, tag, n) == -1,
        last_tag_before(body, tag, n) >= 0 ==> tag_at(body, tag, last_tag_before(body, tag, n)),
        forall|j: int| last_tag_before(body, tag, n) < j < n ==> !tag_at(body, tag, j),
    decreases n,
{
    if n > 0 && !tag_at(body, tag, n - 1) {
        last_tag_points(body, tag, n - 1);
    }
}

/// Injection only adds: a response body comes back as it was, or with the script
/// element put in at one place, which is right before the last `</body>` where
/// there is one and the end otherwise.
pub proof fn injection_only_adds(injector: ObsidianInjector, body: Seq<u8>, rules: Json)
    ensures
        injected(injector, body, rules) == body || exists|i: int|
            {
                &&& 0 <= i <= body.len()
                &&& injected(injector, body, rules) == #[trigger] body.take(i) + encode_utf8(
                    script_element(injector.script_id@, client_script(rules)),
                ) + body.skip(i)
                &&& i == body.len() || tag_at(body, body_end(), i)
                &&& forall|j: int| i < j < body.len() ==> !tag_at(body, body_end(), j)
            },
{
    let element = encode_utf8(script_element(injector.script_id@, client_script(rules)));
    let i = last_tag(body, body_end());
    last_tag_points(body, body_end(), body.len() as int);
    if injected(injector, body, rules) != body {
        if i >= 0 {
            assert(injected(injector, body, rules) == body.take(i) + element + body.skip(i));
        } else {
            let end = body.len() as int;
            assert(body.take(end) =~= body);
            assert(injected(injector, body, rules) =~= body.take(end) + element + body.skip(end));
        }
    }
}

/// What is too long, is not text or has no `<html` tag passes through untouched.
pub proof fn other_bodies_pass_through(injector: ObsidianInjector, body: Seq<u8>, rules: Json)
    requires
        body.len() > injector.max_body_bytes || !valid_utf8(body) || (forall|i: int|
            !tag_at(body, page_start(), i)),
    ensures
        injected(injector, body, rules) == body,
{
    last_tag_points(body, page_start(), body.len() as int);
}

/// A policy that switches no guard on asks for no script, and then every body
/// passes through untouched.
pub proof fn no_guards_no_script(injector: ObsidianInjector, body: Seq<u8>, rules: Json)
    requires
        !flag_at(rules, "guard_rightclick"@),
        !flag_at(rules, "guard_devtools"@),
        !flag_at(rules, "guard_copy"@),
        !flag_at(rules, "obsidian_text"@) || !aggressive(rules),
        !flag_at(rules, "obsidian_css"@),
    ensures
        client_script(rules).len() == 0,
        injected(injector, body, rules) == body,
{
}

} // verus!
