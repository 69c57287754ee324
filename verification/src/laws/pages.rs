//! Laws of injection.

use vstd::prelude::*;
use vstd::utf8::{encode_utf8, valid_utf8};
use crate::agent::{page_after, RelintioAgent, BLOCK_HTML, DECOY_HTML};
use crate::json::{flag_at, text_at, Json};
use crate::obsidian::{
    body_end, client_script, injected, last_tag, last_tag_before, page_start, tag_at,
    ObsidianInjector, AGGRESSIVE_CLASS_NOISE, COMPATIBLE_CLASS_NOISE, COPY_GUARD, DEVTOOLS_GUARD,
    RIGHT_CLICK_GUARD, TEXT_SCRAMBLER,
};

verus! {

/// `<html` stands at this position, in whatever case.
pub open spec fn html_at(body: Seq<u8>, i: int) -> bool {
    &&& 0 <= i
    &&& i + 5 <= body.len()
    &&& body[i] == 60
    &&& body[i + 1] == 104 || body[i + 1] == 72
    &&& body[i + 2] == 116 || body[i + 2] == 84
    &&& body[i + 3] == 109 || body[i + 3] == 77
    &&& body[i + 4] == 108 || body[i + 4] == 76
}

/// `</body>` stands at this position, in whatever case.
pub open spec fn end_of_body_at(body: Seq<u8>, i: int) -> bool {
    &&& 0 <= i
    &&& i + 7 <= body.len()
    &&& body[i] == 60
    &&& body[i + 1] == 47
    &&& body[i + 2] == 98 || body[i + 2] == 66
    &&& body[i + 3] == 111 || body[i + 3] == 79
    &&& body[i + 4] == 100 || body[i + 4] == 68
    &&& body[i + 5] == 121 || body[i + 5] == 89
    &&& body[i + 6] == 62
}

/// The script of a policy as an element, in bytes.
pub open spec fn element(injector: ObsidianInjector, rules: Json) -> Seq<u8> {
    encode_utf8(
        "<script id=\""@ + injector.script_id@ + "\">"@ + client_script(rules) + "</script>"@,
    )
}

/// The two tags stand where their letters do.
proof fn tags_stand_where_their_letters_do(body: Seq<u8>, i: int)
    ensures
        tag_at(body, page_start(), i) <==> html_at(body, i),
        tag_at(body, body_end(), i) <==> end_of_body_at(body, i),
{
    let html = page_start();
    let end = body_end();
    assert(html.len() == 5 && end.len() == 7);
    if tag_at(body, html, i) {
        assert(html[0] == 60 && html[1] == 104 && html[2] == 116 && html[3] == 109 && html[4]
            == 108);
    }
    if tag_at(body, end, i) {
        assert(end[0] == 60 && end[1] == 47 && end[2] == 98 && end[3] == 111 && end[4] == 100
            && end[5] == 121 && end[6] == 62);
    }
}

/// The last position of a tag is found where it stands.
proof fn the_last_tag_is_found(body: Seq<u8>, tag: Seq<u8>, i: int, n: int)
    requires
        0 <= n <= body.len(),
        i == -1 || 0 <= i < n && tag_at(body, tag, i),
        forall|j: int| i < j < n ==> !tag_at(body, tag, j),
    ensures
        last_tag_before(body, tag, n) == i,
    decreases n,
{
    if n > 0 && i != n - 1 {
        assert(!tag_at(body, tag, n - 1));
        the_last_tag_is_found(body, tag, i, n - 1);
    }
}

/// Where a tag stands somewhere, a last one is found.
proof fn some_tag_is_found(body: Seq<u8>, tag: Seq<u8>, i: int, n: int)
    requires
        0 <= i < n <= body.len(),
        tag_at(body, tag, i),
    ensures
        last_tag_before(body, tag, n) >= 0,
    decreases n,
{
    if !tag_at(body, tag, n - 1) {
        some_tag_is_found(body, tag, i, n - 1);
    }
}

/// The script goes into every page: into any text that is not empty and not too long
/// and has `<html` anywhere, in whatever case, under any policy that asks for a script.
/// The page grows by exactly the script element.
pub proof fn the_script_goes_into_every_page(
    injector: ObsidianInjector,
    body: Seq<u8>,
    rules: Json,
    i: int,
)
    requires
        html_at(body, i),
        body.len() <= injector.max_body_bytes,
        valid_utf8(body),
        client_script(rules).len() > 0,
    ensures
        injected(injector, body, rules).len() == body.len() + element(injector, rules).len(),
        forall|j: int|
            #![trigger body.take(j)]
            end_of_body_at(body, j) && (forall|k: int| j < k ==> !end_of_body_at(body, k))
                ==> injected(injector, body, rules) == body.take(j) + element(injector, rules)
                + body.skip(j),
        (forall|k: int| !end_of_body_at(body, k)) ==> injected(injector, body, rules) == body
            + element(injector, rules),
{
    tags_stand_where_their_letters_do(body, i);
    some_tag_is_found(body, page_start(), i, body.len() as int);
    let n = body.len() as int;
    let put = element(injector, rules);
    assert forall|k: int| #[trigger]
        tag_at(body, body_end(), k) == end_of_body_at(body, k) by {
        tags_stand_where_their_letters_do(body, k);
    }
    assert forall|j: int|
        #![trigger body.take(j)]
        end_of_body_at(body, j) && (forall|k: int| j < k ==> !end_of_body_at(body, k)) implies injected(
        injector,
        body,
        rules,
    ) == body.take(j) + put + body.skip(j) by {
        the_last_tag_is_found(body, body_end(), j, n);
    }
    if forall|k: int| !end_of_body_at(body, k) {
        the_last_tag_is_found(body, body_end(), -1, n);
    }
    the_last_tag_points_into_the_body(body, body_end(), n);
}

/// The last position of a tag lies in the body.
proof fn the_last_tag_points_into_the_body(body: Seq<u8>, tag: Seq<u8>, n: int)
    requires
        0 <= n <= body.len(),
    ensures
        -1 <= last_tag_before(body, tag, n) < n || n == 0 && last_tag_before(body, tag, n) == -1,
    decreases n,
{
    if n > 0 && !tag_at(body, tag, n - 1) {
        the_last_tag_points_into_the_body(body, tag, n - 1);
    }
}

/// Nothing else is touched: what is empty or too long, what is not text, what has
/// `<html` nowhere, and anything under a policy that asks for no script.
pub proof fn nothing_else_is_touched(injector: ObsidianInjector, body: Seq<u8>, rules: Json)
    requires
        body.len() == 0 || body.len() > injector.max_body_bytes || !valid_utf8(body) || (forall|
            i: int,
        | !html_at(body, i)) || client_script(rules).len() == 0,
    ensures
        injected(injector, body, rules) == body,
{
    if forall|i: int| !html_at(body, i) {
        assert forall|i: int| !tag_at(body, page_start(), i) by {
            tags_stand_where_their_letters_do(body, i);
        }
        the_last_tag_is_found(body, page_start(), -1, body.len() as int);
        assert(last_tag(body, page_start()) == -1);
    }
}

/// The script of a policy is put together from the parts that it switches on, each by
/// its own flag, in this order; the text is scrambled only in the aggressive mode, and
/// the noise in class names depends on the mode.
pub proof fn what_the_script_of_a_policy_is(rules: Json)
    ensures
        ({
            let none = Seq::<char>::empty();
            let fierce = text_at(rules, "obsidian_mode"@) == Some("aggressive"@);
            client_script(rules) == (if flag_at(rules, "guard_rightclick"@) {
                RIGHT_CLICK_GUARD@
            } else {
                none
            }) + (if flag_at(rules, "guard_devtools"@) {
                DEVTOOLS_GUARD@
            } else {
                none
            }) + (if flag_at(rules, "guard_copy"@) {
                COPY_GUARD@
            } else {
                none
            }) + (if flag_at(rules, "obsidian_text"@) && fierce {
                TEXT_SCRAMBLER@
            } else {
                none
            }) + (if !flag_at(rules, "obsidian_css"@) {
                none
            } else if fierce {
                AGGRESSIVE_CLASS_NOISE@
            } else {
                COMPATIBLE_CLASS_NOISE@
            })
        }),
{
}

/// The agent injects the script of its policy, under its usual name and limit, and
/// nothing where it has no policy.
pub proof fn the_agent_injects_the_script_of_its_policy(
    policy: Json,
    body: Seq<u8>,
    injector: ObsidianInjector,
)
    requires
        injector.script_id@ == "relintio-obsidian"@,
        injector.max_body_bytes == 2_097_152,
    ensures
        page_after(Some(policy), body) == injected(injector, body, policy),
        page_after(None, body) == body,
{
}

/// What the parts of the script do, word for word.
pub proof fn what_the_parts_of_the_script_are()
    ensures
        RIGHT_CLICK_GUARD@
            == "document.addEventListener('contextmenu',e=>e.preventDefault());"@,
        DEVTOOLS_GUARD@
            == "document.onkeydown=function(e){if(e.keyCode==123||(e.ctrlKey&&e.shiftKey&&e.keyCode=='I'.charCodeAt(0))||(e.ctrlKey&&e.shiftKey&&e.keyCode=='J'.charCodeAt(0))||(e.ctrlKey&&e.keyCode=='U'.charCodeAt(0)))return false;};"@,
        COPY_GUARD@
            == "document.addEventListener('copy',function(e){try{var t=(e.clipboardData||window.clipboardData);if(!t)return;var s=window.getSelection?String(window.getSelection()):'';if(!s)return;t.setData('text/plain',s+'\\n\\n[Protected by Relintio]');e.preventDefault();}catch(_e){}});"@,
        TEXT_SCRAMBLER@
            == "(function(){function s(n){if(n.nodeType===3){n.nodeValue=n.nodeValue.split('').join('\\u200C');}else if(n.nodeType===1&&n.tagName!=='SCRIPT'&&n.tagName!=='STYLE'){for(var i=0;i<n.childNodes.length;i++){s(n.childNodes[i]);}}}}window.addEventListener('load',function(){try{s(document.body);}catch(_e){}},{once:true});})();"@,
        AGGRESSIVE_CLASS_NOISE@
            == "(function(){function run(){try{var n=['ax-99','bz-22','c-al'];var all=document.querySelectorAll('*');for(var j=0;j<all.length;j++){all[j].classList.add(n[Math.floor(Math.random()*n.length)]);}}catch(_e){}}window.addEventListener('load',function(){setTimeout(run,50);},{once:true});})();"@,
        COMPATIBLE_CLASS_NOISE@
            == "(function(){function run(){try{var roots=['#app','#__next','[data-reactroot]'];for(var i=0;i<roots.length;i++){if(document.querySelector(roots[i]))return;}var n=['ax-99','bz-22','c-al'];var all=document.querySelectorAll('*');for(var j=0;j<all.length;j++){all[j].classList.add(n[Math.floor(Math.random()*n.length)]);}}catch(_e){}}if('requestIdleCallback' in window){requestIdleCallback(run,{timeout:1200});}else{window.addEventListener('load',function(){setTimeout(run,250);});}})();"@,
{
}

/// What the pages of a decoy and of a block say, word for word.
pub proof fn what_the_pages_of_the_agent_are(decoy: &'static str, block: &'static str)
    requires
        call_ensures(RelintioAgent::decoy_html, (), decoy),
        call_ensures(RelintioAgent::block_html, (), block),
    ensures
        decoy@
            == "<!DOCTYPE html><html><head><meta charset=\"utf-8\"><title>Scheduled Maintenance</title><style>body{background:#0a0a0a;color:#aaa;font-family:system-ui;display:flex;justify-content:center;align-items:center;min-height:100vh;margin:0}.box{text-align:center;max-width:480px}h1{font-size:1.5rem;color:#fff;margin:0 0 1rem}p{color:#666;font-size:.875rem}</style></head><body><div class=\"box\"><h1>Scheduled Maintenance</h1><p>We are currently performing scheduled maintenance. Please try again later.</p><p style=\"color:#444;font-size:.75rem;margin-top:2rem\">ETA: ~15 minutes</p></div></body></html>"@,
        block@
            == "<!DOCTYPE html><html><head><meta charset=\"utf-8\"><title>Access Denied</title><style>body{background:#050507;color:#fff;font-family:system-ui;display:flex;align-items:center;justify-content:center;height:100vh;margin:0}.card{background:#0E0E10;padding:40px;border-radius:20px;border:1px solid rgba(255,255,255,.1);text-align:center}h1{color:#ef4444;margin:0 0 1rem}</style></head><body><div class=\"card\"><h1>Access Blocked</h1><p>Security policies have flagged this request as suspicious.</p></div></body></html>"@,
        DECOY_HTML@ == decoy@,
        BLOCK_HTML@ == block@,
{
}

} // verus!
