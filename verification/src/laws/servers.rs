//! Laws of development servers: what a probe shows of one.

use crate::laws::text::{law_search_finds_the_first, lemma_lower_take};
use crate::servers::{head_of, is_page, probed, title_span, ListenerView};
use crate::text::{
    begins, decimal, found_from, is_white, lemma_found_from, lower, stands_at, trimmed,
};
use vstd::prelude::*;

verus! {

/// The first title element of a page, its tags in any case: the opening tag starts
/// at `open` and ends at `gt`, the text runs from there to `close`, where the
/// closing tag starts.
pub open spec fn is_title_element(page: Seq<char>, open: int, gt: int, close: int) -> bool {
    let low = lower(page);
    &&& 0 <= open && open + 6 <= gt < close && close + 8 <= page.len()
    &&& low.subrange(open, open + 6) == "<title"@
    &&& forall|j: int| 0 <= j < open ==> #[trigger] low.subrange(j, j + 6) != "<title"@
    &&& page[gt] == '>'
    &&& forall|j: int| open <= j < gt ==> #[trigger] page[j] != '>'
    &&& low.subrange(close, close + 8) == "</title>"@
    &&& forall|j: int| gt < j < close ==> #[trigger] low.subrange(j, j + 8) != "</title>"@
}

proof fn lemma_title_span(page: Seq<char>, open: int, gt: int, close: int)
    requires
        is_title_element(page, open, gt, close),
    ensures
        title_span(page) == Some((gt + 1, close)),
{
    let low = lower(page);
    reveal_strlit("<title");
    reveal_strlit(">");
    reveal_strlit("</title>");
    law_search_finds_the_first(low, "<title"@, 0, open);
    assert(low[gt] == '>');
    assert(low.subrange(gt, gt + 1) =~= ">"@);
    assert forall|j: int| open <= j < gt implies #[trigger] low.subrange(j, j + 1) != ">"@ by {
        assert(low.subrange(j, j + 1)[0] == low[j]);
        assert(page[j] != '>');
        assert(low[j] != '>');
    }
    law_search_finds_the_first(low, ">"@, open, gt);
    law_search_finds_the_first(low, "</title>"@, gt + 1, close);
}

proof fn lemma_title_element_in_the_beginning(
    page: Seq<char>,
    open: int,
    gt: int,
    close: int,
    n: int,
)
    requires
        is_title_element(page, open, gt, close),
        close + 8 <= n <= page.len(),
    ensures
        is_title_element(page.take(n), open, gt, close),
{
    let low = lower(page);
    let head = page.take(n);
    lemma_lower_take(page, n);
    assert(lower(head) == low.take(n));
    assert(lower(head).subrange(open, open + 6) =~= low.subrange(open, open + 6));
    assert(lower(head).subrange(close, close + 8) =~= low.subrange(close, close + 8));
    assert forall|j: int| 0 <= j < open implies #[trigger] lower(head).subrange(j, j + 6)
        != "<title"@ by {
        assert(lower(head).subrange(j, j + 6) =~= low.subrange(j, j + 6));
    }
    assert forall|j: int| gt < j < close implies #[trigger] lower(head).subrange(j, j + 8)
        != "</title>"@ by {
        assert(lower(head).subrange(j, j + 8) =~= low.subrange(j, j + 8));
    }
    assert forall|j: int| open <= j < gt implies #[trigger] head[j] != '>' by {
        assert(page[j] != '>');
    }
}

/// A page names its server: where its title element ends within the first 65536
/// characters of the page, and so on every shorter page, the server that a probe
/// shows has the text of that element for its name, without the white space round
/// it. A blank title leaves the name of the process.
pub proof fn law_title_names_the_server(
    listener: ListenerView,
    content_type: Seq<char>,
    page: Seq<char>,
    process: Option<Seq<char>>,
    open: int,
    gt: int,
    close: int,
)
    requires
        is_title_element(page, open, gt, close),
        close + 8 <= 65_536,
        begins(lower(content_type), "text/html"@) || begins(
            lower(content_type),
            "application/xhtml+xml"@,
        ),
    ensures
        ({
            let server = probed(listener, true, Some(content_type), Some(page), process);
            let title = trimmed(page.subrange(gt + 1, close));
            &&& server is Some
            &&& title.len() > 0 ==> server->0.name == title
            &&& title.len() == 0 && process is Some ==> server->0.name == process->0
            &&& title.len() == 0 && process is None ==> server->0.name == "unknown"@
        }),
{
    let head = head_of(page);
    if page.len() > 65_536 {
        lemma_title_element_in_the_beginning(page, open, gt, close, 65_536);
    }
    assert(head == page || head == page.take(65_536));
    lemma_title_span(head, open, gt, close);
    assert(head.subrange(gt + 1, close) =~= page.subrange(gt + 1, close));
}

/// A page that is plain text round one title element: whatever stands before it and
/// after it, its text is the title.
pub proof fn law_plain_title(
    listener: ListenerView,
    before: Seq<char>,
    title: Seq<char>,
    after: Seq<char>,
    process: Option<Seq<char>>,
)
    requires
        !before.contains('<'),
        !title.contains('<'),
        title.len() > 0 && !is_white(title[0]) && !is_white(title.last()),
        before.len() + title.len() + 15 <= 65_536,
    ensures
        ({
            let page = before + "<title>"@ + title + "</title>"@ + after;
            let server = probed(listener, true, Some("text/html"@), Some(page), process);
            server is Some && server->0.name == title
        }),
{
    let page = before + "<title>"@ + title + "</title>"@ + after;
    let low = lower(page);
    let open = before.len() as int;
    let gt = open + 6;
    let close = gt + 1 + title.len();
    reveal_strlit("<title>");
    reveal_strlit("<title");
    reveal_strlit("</title>");
    reveal_strlit("text/html");
    assert(low.subrange(open, open + 6) =~= "<title"@);
    assert(low.subrange(close, close + 8) =~= "</title>"@);
    assert forall|j: int| 0 <= j < open implies #[trigger] low.subrange(j, j + 6) != "<title"@ by {
        assert(low.subrange(j, j + 6)[0] == low[j]);
        assert(before.contains(before[j]));
        assert(page[j] == before[j]);
    }
    assert forall|j: int| gt < j < close implies #[trigger] low.subrange(j, j + 8)
        != "</title>"@ by {
        assert(low.subrange(j, j + 8)[0] == low[j]);
        assert(title.contains(title[j - gt - 1]));
        assert(page[j] == title[j - gt - 1]);
    }
    assert forall|j: int| open <= j < gt implies #[trigger] page[j] != '>' by {
        assert(page[j] == "<title>"@[j - open]);
    }
    assert(page[gt] == '>');
    assert(lower("text/html"@) =~= "text/html"@);
    assert("text/html"@.subrange(0, 9) =~= "text/html"@);
    law_title_names_the_server(listener, "text/html"@, page, process, open, gt, close);
    assert(page.subrange(gt + 1, close) =~= title);
}

/// A page with no title element in its first 65536 characters is named after its
/// process, whatever follows.
pub proof fn law_untitled_page_is_named_after_its_process(
    listener: ListenerView,
    content_type: Seq<char>,
    page: Seq<char>,
    process: Seq<char>,
)
    requires
        is_page(content_type),
        forall|j: int|
            0 <= j && j + 6 <= page.len() && j + 6 <= 65_536 ==> #[trigger] lower(page).subrange(
                j,
                j + 6,
            ) != "<title"@,
    ensures
        probed(listener, true, Some(content_type), Some(page), Some(process)) matches Some(s)
            && s.name == process,
{
    let head = head_of(page);
    reveal_strlit("<title");
    if page.len() > 65_536 {
        lemma_lower_take(page, 65_536);
    }
    lemma_found_from(lower(head), "<title"@, 0);
    match found_from(lower(head), "<title"@, 0) {
        Some(i) => {
            assert(stands_at(lower(head), "<title"@, i));
            assert(lower(page).subrange(i, i + 6) =~= lower(head).subrange(i, i + 6));
        },
        None => {},
    }
}

/// A probe shows a server just where a page came back: an answer that failed, that
/// is no page or that cannot be read shows none. The server is the listener's, on
/// the loopback address.
pub proof fn law_probe_shows_pages_alone(
    listener: ListenerView,
    success: bool,
    content_type: Option<Seq<char>>,
    body: Option<Seq<char>>,
    process: Option<Seq<char>>,
)
    ensures
        ({
            let server = probed(listener, success, content_type, body, process);
            &&& server is Some <==> success && body is Some && content_type is Some && (begins(
                lower(content_type->0),
                "text/html"@,
            ) || begins(lower(content_type->0), "application/xhtml+xml"@))
            &&& server matches Some(s) ==> {
                &&& s.port == listener.port
                &&& s.pid == listener.pid
                &&& s.host == "127.0.0.1"@
                &&& s.origin == "http://127.0.0.1:"@ + decimal(listener.port as nat)
                &&& s.process == match process {
                    Some(p) => p,
                    None => "unknown"@,
                }
                &&& !s.is_current_context
            }
        }),
{
}

} // verus!
