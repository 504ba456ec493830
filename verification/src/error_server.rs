use vstd::prelude::*;
use vstd::string::StringExecFns;

verus! {

/// A failure that can be shown to the browser as a fragment of HTML.
pub trait ErrorHtml {
    fn to_html(&self) -> String;
}

/// Why a tunnel to a pod failed.
#[derive(Debug)]
pub enum TunnelError {
    /// An input/output failure, by its description.
    Io { message: String },
    /// A gRPC failure: the description of its code, and its message.
    Grpc { code_description: String, message: String },
}

/// The text with each `&`, `<` and `>` replaced by its HTML entity.
pub open spec fn escape_text(s: Seq<char>) -> Seq<char>
    decreases s.len(),
{
    if s.len() == 0 {
        Seq::<char>::empty()
    } else {
        escape_text(s.drop_last()) + escape_char(s.last())
    }
}

pub open spec fn escape_char(c: char) -> Seq<char> {
    if c == '&' {
        seq!['&', 'a', 'm', 'p', ';']
    } else if c == '<' {
        seq!['&', 'l', 't', ';']
    } else if c == '>' {
        seq!['&', 'g', 't', ';']
    } else {
        seq![c]
    }
}

/// Escapes text for the body of an HTML element with `html_escape::encode_text`,
/// which replaces `&`, `<` and `>` by their entities and keeps every other
/// character.
#[verifier::external_body]
fn encode_text(text: &str) -> (r: String)
    ensures
        r@ == escape_text(text@),
{
    html_escape::encode_text(text).into_owned()
}

/// Escaped text holds no `<` and no `>`: whatever a failure's message says, it
/// cannot open or close an HTML element of the error page.
pub proof fn lemma_escaped_text_has_no_markup(s: Seq<char>)
    ensures
        forall|i: int|
            0 <= i < escape_text(s).len() ==> #[trigger] escape_text(s)[i] != '<'
                && escape_text(s)[i] != '>',
    decreases s.len(),
{
    if s.len() > 0 {
        lemma_escaped_text_has_no_markup(s.drop_last());
        let prefix = escape_text(s.drop_last());
        let tail = escape_char(s.last());
        assert forall|i: int| 0 <= i < escape_text(s).len() implies #[trigger] escape_text(s)[i]
            != '<' && escape_text(s)[i] != '>' by {
            if i < prefix.len() {
                assert(escape_text(s)[i] == prefix[i]);
            } else {
                assert(escape_text(s)[i] == tail[i - prefix.len()]);
            }
        }
    }
}

/// Text with the entities `&amp;`, `&lt;` and `&gt;` read back as the
/// characters they stand for, from the front.
pub open spec fn html_unescape(s: Seq<char>) -> Seq<char>
    decreases s.len(),
{
    if s.len() == 0 {
        Seq::<char>::empty()
    } else if s.len() >= 5 && s.take(5) == seq!['&', 'a', 'm', 'p', ';'] {
        seq!['&'] + html_unescape(s.skip(5))
    } else if s.len() >= 4 && s.take(4) == seq!['&', 'l', 't', ';'] {
        seq!['<'] + html_unescape(s.skip(4))
    } else if s.len() >= 4 && s.take(4) == seq!['&', 'g', 't', ';'] {
        seq!['>'] + html_unescape(s.skip(4))
    } else {
        seq![s[0]] + html_unescape(s.skip(1))
    }
}

proof fn lemma_escape_text_append(a: Seq<char>, b: Seq<char>)
    ensures
        escape_text(a + b) == escape_text(a) + escape_text(b),
    decreases b.len(),
{
    if b.len() == 0 {
        assert(a + b =~= a);
        assert(escape_text(a) + escape_text(b) =~= escape_text(a));
    } else {
        lemma_escape_text_append(a, b.drop_last());
        assert((a + b).drop_last() =~= a + b.drop_last());
        assert((a + b).last() == b.last());
        assert(escape_text(a + b) =~= escape_text(a) + escape_text(b));
    }
}

proof fn lemma_unescape_char(c: char, t: Seq<char>)
    ensures
        html_unescape(escape_char(c) + t) == seq![c] + html_unescape(t),
{
    let e = escape_char(c) + t;
    if c == '&' {
        assert(e.take(5) =~= seq!['&', 'a', 'm', 'p', ';']);
        assert(e.skip(5) =~= t);
    } else if c == '<' {
        assert(e.take(4) =~= seq!['&', 'l', 't', ';']);
        assert(!(e.len() >= 5 && e.take(5) == seq!['&', 'a', 'm', 'p', ';'])) by {
            if e.len() >= 5 {
                assert(e.take(5)[1] == 'l');
                assert(seq!['&', 'a', 'm', 'p', ';'][1] == 'a');
            }
        }
        assert(e.skip(4) =~= t);
    } else if c == '>' {
        assert(e.take(4) =~= seq!['&', 'g', 't', ';']);
        assert(!(e.len() >= 5 && e.take(5) == seq!['&', 'a', 'm', 'p', ';'])) by {
            if e.len() >= 5 {
                assert(e.take(5)[1] == 'g');
                assert(seq!['&', 'a', 'm', 'p', ';'][1] == 'a');
            }
        }
        assert(e.take(4) != seq!['&', 'l', 't', ';']) by {
            assert(e.take(4)[1] == 'g');
            assert(seq!['&', 'l', 't', ';'][1] == 'l');
        }
        assert(e.skip(4) =~= t);
    } else {
        assert(e[0] == c);
        if e.len() >= 5 {
            assert(e.take(5)[0] == c);
            assert(e.take(5) != seq!['&', 'a', 'm', 'p', ';']);
        }
        if e.len() >= 4 {
            assert(e.take(4)[0] == c);
            assert(e.take(4) != seq!['&', 'l', 't', ';']);
            assert(e.take(4) != seq!['&', 'g', 't', ';']);
        }
        assert(e.skip(1) =~= t);
    }
}

/// Escaping loses nothing: reading the entities back gives the text that was
/// escaped, every character in its place.
pub proof fn lemma_escape_text_round_trip(s: Seq<char>)
    ensures
        html_unescape(escape_text(s)) == s,
    decreases s.len(),
{
    if s.len() > 0 {
        let rest = s.skip(1);
        assert(s =~= seq![s[0]] + rest);
        lemma_escape_text_append(seq![s[0]], rest);
        assert(escape_text(seq![s[0]]) =~= escape_char(s[0])) by {
            let one = seq![s[0]];
            assert(one.drop_last() =~= Seq::<char>::empty());
            assert(one.last() == s[0]);
            assert(escape_text(Seq::<char>::empty()) == Seq::<char>::empty());
            assert(escape_text(one) == escape_text(one.drop_last()) + escape_char(one.last()));
        }
        lemma_unescape_char(s[0], escape_text(rest));
        lemma_escape_text_round_trip(rest);
    }
}

pub open spec fn io_error_html_text(message: Seq<char>) -> Seq<char> {
    "\n            <p>\n                IO error from session tunnel\n                <ul>\n                    <li>"@
        + escape_text(message) + "</li>\n                </ul>\n            </p>\n        "@
}

pub open spec fn grpc_error_html_text(code_description: Seq<char>, message: Seq<char>) -> Seq<
    char,
> {
    "\n            <p>\n                gRPC error from session tunnel\n                <ul>\n                    <li><b>Code:</b> "@
        + code_description + "</li>\n                    <li><b>Message:</b> "@ + escape_text(
        message,
    ) + "</li>\n                </ul>\n            </p>\n        "@
}

/// The HTML fragment that shows a tunnel failure.
pub open spec fn tunnel_error_html(e: TunnelError) -> Seq<char> {
    match e {
        TunnelError::Io { message } => io_error_html_text(message@),
        TunnelError::Grpc { code_description, message } => grpc_error_html_text(
            code_description@,
            message@,
        ),
    }
}

impl ErrorHtml for TunnelError {
    fn to_html(&self) -> (r: String)
        ensures
            r@ == tunnel_error_html(*self),
    {
        match self {
            TunnelError::Io { message } => {
                let mut r = String::from_str(
                    "\n            <p>\n                IO error from session tunnel\n                <ul>\n                    <li>",
                );
                let escaped = encode_text(message.as_str());
                r.append(escaped.as_str());
                r.append("</li>\n                </ul>\n            </p>\n        ");
                r
            },
            TunnelError::Grpc { code_description, message } => {
                let mut r = String::from_str(
                    "\n            <p>\n                gRPC error from session tunnel\n                <ul>\n                    <li><b>Code:</b> ",
                );
                r.append(code_description.as_str());
                r.append("</li>\n                    <li><b>Message:</b> ");
                let escaped = encode_text(message.as_str());
                r.append(escaped.as_str());
                r.append("</li>\n                </ul>\n            </p>\n        ");
                r
            },
        }
    }
}

pub open spec fn error_page_head() -> Seq<char> {
    "\n            <html><head><title>Kappa: Tunnel Failed</title></head><body>\n            <h1>Kappa: Tunnel Failed</h1>\n        "@
}

pub open spec fn error_page_tail() -> Seq<char> {
    "</body></html>"@
}

/// The `i`-th part of the error page for a failure: the head of the page, the
/// failure's HTML, and the end of the page; nothing after those three.
pub open spec fn error_body_part(err: TunnelError, i: nat) -> Option<Seq<char>> {
    if i == 0 {
        Some(error_page_head())
    } else if i == 1 {
        Some(tunnel_error_html(err))
    } else if i == 2 {
        Some(error_page_tail())
    } else {
        None
    }
}

/// The body of the error page, handed out part by part.
pub struct ErrorBody {
    err: TunnelError,
    next: usize,
}

impl ErrorBody {
    /// The failure that the page shows.
    pub closed spec fn err(&self) -> TunnelError {
        self.err
    }

    /// How many parts have been handed out.
    pub closed spec fn polled(&self) -> nat {
        self.next as nat
    }

    /// Hands out the next part of the page, or `None` once all three are out.
    /// It never has to wait.
    pub fn poll_next(&mut self) -> (r: Option<String>)
        ensures
            final(self).err() == old(self).err(),
            final(self).polled() == next_polled(old(self).polled()),
            match error_body_part(old(self).err(), old(self).polled()) {
                None => r is None,
                Some(t) => r matches Some(s) && s@ == t,
            },
    {
        if self.next == 0 {
            self.next = 1;
            Some(
                String::from_str(
                    "\n            <html><head><title>Kappa: Tunnel Failed</title></head><body>\n            <h1>Kappa: Tunnel Failed</h1>\n        ",
                ),
            )
        } else if self.next == 1 {
            self.next = 2;
            Some(self.err.to_html())
        } else if self.next == 2 {
            self.next = 3;
            Some(String::from_str("</body></html>"))
        } else {
            None
        }
    }
}

/// The body of the error page for a failure, before any part is handed out.
pub fn error_body(err: TunnelError) -> (r: ErrorBody)
    ensures
        r.err() == err,
        r.polled() == 0,
{
    ErrorBody { err, next: 0 }
}

/// How many parts have been handed out after one more poll, from `polled`.
pub open spec fn next_polled(polled: nat) -> nat {
    if polled < 3 {
        polled + 1
    } else {
        polled
    }
}

/// What `n` polls in a row give, starting with `polled` parts handed out.
pub open spec fn run_polls(err: TunnelError, polled: nat, n: nat) -> Seq<Option<Seq<char>>>
    decreases n,
{
    if n == 0 {
        Seq::empty()
    } else {
        seq![error_body_part(err, polled)] + run_polls(err, next_polled(polled), (n - 1) as nat)
    }
}

/// Polling a fresh body of the error page `n` times gives its head, the
/// failure's HTML and its end, in that order and each once, and after those
/// only the end of the body.
pub proof fn lemma_error_body_parts(err: TunnelError, n: nat)
    ensures
        run_polls(err, 0, n).len() == n,
        n >= 1 ==> run_polls(err, 0, n)[0] == Some(error_page_head()),
        n >= 2 ==> run_polls(err, 0, n)[1] == Some(tunnel_error_html(err)),
        n >= 3 ==> run_polls(err, 0, n)[2] == Some(error_page_tail()),
        forall|i: int| 3 <= i < n ==> #[trigger] run_polls(err, 0, n)[i] is None,
{
    lemma_run_polls(err, 0, n);
}

proof fn lemma_run_polls(err: TunnelError, polled: nat, n: nat)
    requires
        polled <= 3,
    ensures
        run_polls(err, polled, n).len() == n,
        forall|i: int|
            0 <= i < n ==> #[trigger] run_polls(err, polled, n)[i] == error_body_part(
                err,
                if polled + i < 3 {
                    (polled + i) as nat
                } else {
                    3
                },
            ),
    decreases n,
{
    if n > 0 {
        lemma_run_polls(err, next_polled(polled), (n - 1) as nat);
        let rest = run_polls(err, next_polled(polled), (n - 1) as nat);
        assert forall|i: int| 0 <= i < n implies #[trigger] run_polls(err, polled, n)[i]
            == error_body_part(
            err,
            if polled + i < 3 {
                (polled + i) as nat
            } else {
                3
            },
        ) by {
            if i > 0 {
                assert(run_polls(err, polled, n)[i] == rest[i - 1]);
            }
        }
    }
}

} // verus!
