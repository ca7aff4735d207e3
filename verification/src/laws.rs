//! What holds of every line and of every configuration, proved from the
//! definitions of `text` and `grammar`.

use crate::addr::{
    address_of, address_text, decimal_text, digit_char, endpoint_of, network_of, network_text,
    octet_of, port_of, prefix_len_of, quad_of, Ipv4Address, Ipv4Network,
};
use crate::config::ConfigView;
use crate::error::ParserErrorView;
use crate::grammar::{
    directive_arity, interface_of, with_line, with_lines, with_rip, with_text, with_tokens,
};
use crate::text::{
    all_digits, comment_mark, decimal_value, digit_value, is_ascii_space, is_digit, just,
    lemma_span_len, lemma_span_len_is, lines_of, significant_tokens, space, span_len, split_on,
    strip_comment, tokens_of,
};
use vstd::prelude::*;

verus! {

/// A token as the tokenizer yields them: not empty, and free of whitespace.
pub open spec fn is_word(t: Seq<char>) -> bool {
    t.len() > 0 && forall|i: int| 0 <= i < t.len() ==> !is_ascii_space(#[trigger] t[i])
}

pub open spec fn all_words(tokens: Seq<Seq<char>>) -> bool {
    forall|k: int| 0 <= k < tokens.len() ==> is_word(#[trigger] tokens[k])
}

/// The tokens written one after the other, with a single space between
/// each two.
pub open spec fn join_tokens(tokens: Seq<Seq<char>>) -> Seq<char>
    decreases tokens.len(),
{
    if tokens.len() == 0 {
        Seq::empty()
    } else if tokens.len() == 1 {
        tokens[0]
    } else {
        tokens[0] + seq![' '] + join_tokens(tokens.drop_first())
    }
}

/// Every token of a line is a word.
pub proof fn lemma_tokens_are_words(s: Seq<char>)
    ensures
        all_words(tokens_of(s)),
    decreases s.len(),
{
    if s.len() == 0 {
    } else if is_ascii_space(s[0]) {
        lemma_tokens_are_words(s.drop_first());
    } else {
        let n = span_len(s, space()) as int;
        lemma_span_len(s, space());
        assert forall|i: int| 0 <= i < n implies !is_ascii_space(#[trigger] s[i]) by {
            assert(!space()(s[i]));
        }
        if n < s.len() {
            let head = s.take(n);
            let rest = tokens_of(s.skip(n + 1));
            lemma_tokens_are_words(s.skip(n + 1));
            assert(is_word(head));
            assert forall|k: int| 0 <= k < (seq![head] + rest).len() implies is_word(
                #[trigger] (seq![head] + rest)[k],
            ) by {
                if k > 0 {
                    assert((seq![head] + rest)[k] == rest[k - 1]);
                }
            }
        }
    }
}

/// Words that are joined by single spaces are the tokens of the result.
pub proof fn lemma_tokens_of_join(tokens: Seq<Seq<char>>)
    requires
        all_words(tokens),
    ensures
        tokens_of(join_tokens(tokens)) == tokens,
    decreases tokens.len(),
{
    let s = join_tokens(tokens);
    if tokens.len() == 0 {
        assert(tokens_of(s) =~= tokens);
    } else {
        let t = tokens[0];
        assert(is_word(t));
        if tokens.len() == 1 {
            assert forall|i: int| 0 <= i < s.len() implies !space()(#[trigger] s[i]) by {
                assert(!is_ascii_space(t[i]));
            }
            lemma_span_len_is(s, space(), s.len());
            assert(tokens_of(s) =~= tokens);
        } else {
            let rest = tokens.drop_first();
            assert forall|k: int| 0 <= k < rest.len() implies is_word(#[trigger] rest[k]) by {
                assert(rest[k] == tokens[k + 1]);
            }
            lemma_tokens_of_join(rest);
            let n = t.len() as int;
            assert forall|i: int| 0 <= i < n implies !space()(#[trigger] s[i]) by {
                assert(s[i] == t[i]);
                assert(!is_ascii_space(t[i]));
            }
            assert(s[n] == ' ');
            lemma_span_len_is(s, space(), n as nat);
            assert(s.take(n) =~= t);
            assert(s.skip(n + 1) =~= join_tokens(rest));
            assert(!is_ascii_space(s[0])) by {
                assert(s[0] == t[0]);
            }
            assert(tokens_of(s) == seq![t] + tokens_of(join_tokens(rest)));
            assert(seq![t] + rest =~= tokens);
        }
    }
}

/// Tokenizing a line, dropping its comment, joining what is left with
/// single spaces and tokenizing again gives the same tokens: the width of
/// the whitespace and the comment carry no meaning.
pub proof fn lemma_rejoin_keeps_tokens(line: Seq<char>)
    ensures
        significant_tokens(join_tokens(significant_tokens(line))) == significant_tokens(line),
{
    let all = tokens_of(line);
    let kept = strip_comment(all);
    lemma_tokens_are_words(line);
    lemma_span_len(all, comment_mark());
    assert forall|k: int| 0 <= k < kept.len() implies is_word(#[trigger] kept[k]) by {
        assert(kept[k] == all[k]);
    }
    lemma_tokens_of_join(kept);
    assert forall|k: int| 0 <= k < kept.len() implies !comment_mark()(#[trigger] kept[k]) by {
        assert(kept[k] == all[k]);
    }
    lemma_span_len_is(kept, comment_mark(), kept.len());
    assert(kept.take(kept.len() as int) =~= kept);
}

/// A line means what its significant tokens, joined by single spaces, mean.
pub proof fn lemma_rejoin_keeps_meaning(cfg: ConfigView, line: Seq<char>)
    ensures
        with_line(cfg, join_tokens(significant_tokens(line))) == with_line(cfg, line),
{
    lemma_rejoin_keeps_tokens(line);
}

/// A line without significant tokens, blank or all comment, is accepted and
/// leaves the configuration as it was. A line whose first token is `#` is
/// such a line.
pub proof fn lemma_comment_line_changes_nothing(cfg: ConfigView, line: Seq<char>)
    requires
        tokens_of(line).len() == 0 || tokens_of(line)[0] == "#"@,
    ensures
        with_line(cfg, line) == Ok::<ConfigView, ParserErrorView>(cfg),
{
    assert(span_len(tokens_of(line), comment_mark()) == 0);
}

/// A line that names a directive and has another number of tokens than the
/// directive takes is rejected as `BadFormat`, whatever its fields hold.
pub proof fn lemma_wrong_arity_is_bad_format(cfg: ConfigView, line: Seq<char>)
    requires
        significant_tokens(line).len() > 0,
        directive_arity(significant_tokens(line)[0]) is Some,
        directive_arity(significant_tokens(line)[0])->0 != significant_tokens(line).len(),
    ensures
        with_line(cfg, line) == Err::<ConfigView, ParserErrorView>(ParserErrorView::BadFormat),
{
}

/// A line whose first token names no directive is rejected, and the error
/// names the token.
pub proof fn lemma_unknown_directive_is_rejected(cfg: ConfigView, line: Seq<char>)
    requires
        significant_tokens(line).len() > 0,
        directive_arity(significant_tokens(line)[0]) is None,
    ensures
        with_line(cfg, line) == Err::<ConfigView, ParserErrorView>(
            ParserErrorView::Other("Invalid directive: "@ + significant_tokens(line)[0]),
        ),
{
}

/// A line with the right number of tokens is never rejected as `BadFormat`.
pub proof fn lemma_right_arity_is_not_bad_format(cfg: ConfigView, line: Seq<char>)
    requires
        significant_tokens(line).len() > 0,
        directive_arity(significant_tokens(line)[0]) == Some(significant_tokens(line).len()),
    ensures
        with_line(cfg, line) != Err::<ConfigView, ParserErrorView>(ParserErrorView::BadFormat),
{
}

/// A `rip` line of three tokens whose second is not `advertise-to` is
/// rejected for the missing keyword, whatever the configuration holds and
/// whatever the third token is.
pub proof fn lemma_rip_needs_its_keyword(cfg: ConfigView, tokens: Seq<Seq<char>>)
    requires
        tokens.len() == 3,
        tokens[1] != "advertise-to"@,
    ensures
        with_rip(cfg, tokens) == Err::<ConfigView, ParserErrorView>(
            ParserErrorView::MissingToken("advertise-to"@),
        ),
{
}

/// Text is an endpoint exactly when one colon parts it into an address and
/// a port.
pub proof fn lemma_endpoint_is_address_colon_port(s: Seq<char>)
    ensures
        endpoint_of(s) is Ok <==> split_on(s, ':').len() == 2 && address_of(split_on(s, ':')[0])
            is Some && port_of(split_on(s, ':')[1]) is Some,
        endpoint_of(s) matches Ok(e) ==> address_of(split_on(s, ':')[0]) == Some(e.0) && port_of(
            split_on(s, ':')[1],
        ) == Some(e.1),
{
}

/// The error of a line is never an `InvalidLine`: a line's error is bound to
/// the line once, by the run over the lines, and never twice.
pub proof fn lemma_line_error_is_bare(cfg: ConfigView, line: Seq<char>)
    ensures
        with_line(cfg, line) matches Err(e) ==> e.is_bare(),
{
}

/// The address of an interface is the address of its prefix, as it was
/// written on the line, and the prefix length is at most 32.
pub proof fn lemma_interface_ip_is_prefix_addr(tokens: Seq<Seq<char>>)
    ensures
        interface_of(tokens) matches Ok(interface) ==> interface.wf(),
{
}

/// An accepted line keeps a well-formed configuration well formed.
pub proof fn lemma_line_keeps_wf(cfg: ConfigView, line: Seq<char>)
    requires
        cfg.wf(),
    ensures
        with_line(cfg, line) matches Ok(next) ==> next.wf(),
{
    let tokens = significant_tokens(line);
    if tokens.len() > 0 {
        if let Ok(next) = with_tokens(cfg, tokens) {
            assert forall|addr| cfg.has_neighbor(addr) implies next.has_neighbor(addr) by {
                let i = choose|i: int|
                    0 <= i < cfg.neighbors.len() && (#[trigger] cfg.neighbors[i]).dest_addr
                        == addr;
                assert(next.neighbors[i] == cfg.neighbors[i]);
            }
            assert forall|i: int| 0 <= i < next.interfaces.len() implies (
            #[trigger] next.interfaces[i]).wf() by {
                if i < cfg.interfaces.len() {
                    assert(next.interfaces[i] == cfg.interfaces[i]);
                }
            }
            assert forall|i: int| 0 <= i < next.static_routes.len() implies (
            #[trigger] next.static_routes[i]).0.wf() by {
                if i < cfg.static_routes.len() {
                    assert(next.static_routes[i] == cfg.static_routes[i]);
                }
            }
            if let Some(targets) = next.rip_neighbors {
                assert forall|i: int| 0 <= i < targets.len() implies next.has_neighbor(
                    #[trigger] targets[i],
                ) by {
                    if let Some(before) = cfg.rip_neighbors {
                        if i < before.len() {
                            assert(targets[i] == before[i]);
                            assert(cfg.has_neighbor(before[i]));
                        }
                    }
                }
            }
        }
    }
}

/// An accepted line takes nothing away: what the configuration held, it
/// still holds, in the same places. Only the routing mode can be replaced.
pub proof fn lemma_line_only_appends(cfg: ConfigView, line: Seq<char>)
    ensures
        with_line(cfg, line) matches Ok(next) ==> cfg.extended_by(next),
{
}

/// A run over lines keeps a well-formed configuration well formed, whether
/// or not it ends in an error.
pub proof fn lemma_lines_keep_wf(cfg: ConfigView, lines: Seq<Seq<char>>)
    requires
        cfg.wf(),
    ensures
        with_lines(cfg, lines).config.wf(),
    decreases lines.len(),
{
    if lines.len() > 0 {
        lemma_line_keeps_wf(cfg, lines[0]);
        if let Ok(next) = with_line(cfg, lines[0]) {
            lemma_lines_keep_wf(next, lines.drop_first());
        }
    }
}

/// A run over lines takes nothing away.
pub proof fn lemma_lines_only_append(cfg: ConfigView, lines: Seq<Seq<char>>)
    ensures
        cfg.extended_by(with_lines(cfg, lines).config),
    decreases lines.len(),
{
    if lines.len() > 0 {
        lemma_line_only_appends(cfg, lines[0]);
        if let Ok(next) = with_line(cfg, lines[0]) {
            lemma_lines_only_append(next, lines.drop_first());
        }
    }
}

/// A run that ends in an error ends in an `InvalidLine` that holds one of
/// the lines and a bare error.
pub proof fn lemma_lines_error_is_invalid_line(cfg: ConfigView, lines: Seq<Seq<char>>)
    ensures
        with_lines(cfg, lines).error matches Some(e) ==> e matches ParserErrorView::InvalidLine(
            line,
            cause,
        ) && cause.is_bare() && lines.contains(line),
    decreases lines.len(),
{
    if lines.len() > 0 {
        lemma_line_error_is_bare(cfg, lines[0]);
        match with_line(cfg, lines[0]) {
            Ok(next) => {
                let rest = lines.drop_first();
                lemma_lines_error_is_invalid_line(next, rest);
                if let Some(ParserErrorView::InvalidLine(line, _)) = with_lines(next, rest).error {
                    let k = choose|k: int| 0 <= k < rest.len() && rest[k] == line;
                    assert(lines[k + 1] == line);
                }
            },
            Err(_) => {
                assert(lines[0] == lines[0]);
            },
        }
    }
}

/// Every configuration that a text builds from the empty one is well
/// formed.
pub proof fn lemma_text_builds_wf(text: Seq<char>)
    ensures
        with_text(ConfigView::empty(), text).config.wf(),
{
    lemma_lines_keep_wf(ConfigView::empty(), lines_of(text));
}

/// The numeral of a number holds digits only, as few as the number needs,
/// and denotes the number.
pub proof fn lemma_decimal_text(n: nat)
    ensures
        decimal_text(n).len() >= 1,
        n < 10 ==> decimal_text(n).len() == 1,
        n < 100 ==> decimal_text(n).len() <= 2,
        n < 1000 ==> decimal_text(n).len() <= 3,
        all_digits(decimal_text(n)),
        n > 0 ==> decimal_text(n)[0] != '0',
        decimal_value(decimal_text(n)) == n,
    decreases n,
{
    let t = decimal_text(n);
    assert(decimal_value(t) == decimal_value(t.drop_last()) * 10 + digit_value(t.last()));
    if n < 10 {
        assert(t.drop_last() =~= Seq::<char>::empty());
        assert(decimal_value(t.drop_last()) == 0);
        assert(t.last() == digit_char(n));
        assert(is_digit(digit_char(n)) && digit_value(digit_char(n)) == n);
    } else {
        let head = decimal_text(n / 10);
        lemma_decimal_text(n / 10);
        assert(t.drop_last() =~= head);
        assert(t.last() == digit_char(n % 10));
        assert(is_digit(digit_char(n % 10)) && digit_value(digit_char(n % 10)) == n % 10);
        assert forall|i: int| 0 <= i < t.len() implies is_digit(#[trigger] t[i]) by {
            if i < head.len() {
                assert(t[i] == head[i]);
            }
        }
        assert(t[0] == head[0]);
    }
}

/// The numeral of an octet reads back as the octet, under either rule for
/// leading zeros.
pub proof fn lemma_octet_text_reads_back(n: u8, strict: bool)
    ensures
        octet_of(decimal_text(n as nat), strict) == Some(n),
{
    lemma_decimal_text(n as nat);
}

/// A numeral holds no character that is not a digit.
pub proof fn lemma_numeral_excludes(n: nat, c: char)
    requires
        !is_digit(c),
    ensures
        !decimal_text(n).contains(c),
{
    lemma_decimal_text(n);
    let t = decimal_text(n);
    if t.contains(c) {
        let i = choose|i: int| 0 <= i < t.len() && t[i] == c;
        assert(is_digit(t[i]));
    }
}

/// What neither of two texts holds, the two in a row do not hold.
pub proof fn lemma_concat_excludes(x: Seq<char>, y: Seq<char>, c: char)
    requires
        !x.contains(c),
        !y.contains(c),
    ensures
        !(x + y).contains(c),
{
    if (x + y).contains(c) {
        let i = choose|i: int| 0 <= i < (x + y).len() && (x + y)[i] == c;
        if i < x.len() {
            assert(x[i] == c);
        } else {
            assert(y[i - x.len()] == c);
        }
    }
}

/// Text without the separator is a single piece.
pub proof fn lemma_split_on_whole(piece: Seq<char>, sep: char)
    requires
        !piece.contains(sep),
    ensures
        split_on(piece, sep) == seq![piece],
{
    assert forall|i: int| 0 <= i < piece.len() implies !just(sep)(#[trigger] piece[i]) by {
        assert(piece.contains(piece[i]));
    }
    lemma_span_len_is(piece, just(sep), piece.len());
}

/// Text without the separator, followed by the separator, is the first
/// piece of the whole.
pub proof fn lemma_split_on_first(piece: Seq<char>, sep: char, rest: Seq<char>)
    requires
        !piece.contains(sep),
    ensures
        split_on(piece + seq![sep] + rest, sep) == seq![piece] + split_on(rest, sep),
{
    let s = piece + seq![sep] + rest;
    let n = piece.len() as int;
    assert forall|i: int| 0 <= i < n implies !just(sep)(#[trigger] s[i]) by {
        assert(s[i] == piece[i]);
        assert(piece.contains(piece[i]));
    }
    assert(s[n] == sep);
    lemma_span_len_is(s, just(sep), n as nat);
    assert(s.take(n) =~= piece);
    assert(s.skip(n + 1) =~= rest);
}

/// Dotted-decimal notation splits at its dots into the four numerals.
pub proof fn lemma_address_text_pieces(addr: Ipv4Address)
    ensures
        split_on(address_text(addr), '.') == seq![
            decimal_text(addr.a as nat),
            decimal_text(addr.b as nat),
            decimal_text(addr.c as nat),
            decimal_text(addr.d as nat),
        ],
{
    let a = decimal_text(addr.a as nat);
    let b = decimal_text(addr.b as nat);
    let c = decimal_text(addr.c as nat);
    let d = decimal_text(addr.d as nat);
    lemma_numeral_excludes(addr.a as nat, '.');
    lemma_numeral_excludes(addr.b as nat, '.');
    lemma_numeral_excludes(addr.c as nat, '.');
    lemma_numeral_excludes(addr.d as nat, '.');
    let tail_c = c + seq!['.'] + d;
    let tail_b = b + seq!['.'] + tail_c;
    lemma_split_on_whole(d, '.');
    lemma_split_on_first(c, '.', d);
    assert(split_on(tail_c, '.') =~= seq![c, d]);
    lemma_split_on_first(b, '.', tail_c);
    assert(split_on(tail_b, '.') =~= seq![b, c, d]);
    lemma_split_on_first(a, '.', tail_b);
    assert(address_text(addr) =~= a + seq!['.'] + tail_b);
    assert(split_on(a + seq!['.'] + tail_b, '.') =~= seq![a, b, c, d]);
}

/// Dotted-decimal notation holds no slash.
pub proof fn lemma_address_text_has_no_slash(addr: Ipv4Address)
    ensures
        !address_text(addr).contains('/'),
{
    let a = decimal_text(addr.a as nat);
    let b = decimal_text(addr.b as nat);
    let c = decimal_text(addr.c as nat);
    let d = decimal_text(addr.d as nat);
    let dot = seq!['.'];
    lemma_numeral_excludes(addr.a as nat, '/');
    lemma_numeral_excludes(addr.b as nat, '/');
    lemma_numeral_excludes(addr.c as nat, '/');
    lemma_numeral_excludes(addr.d as nat, '/');
    assert(!dot.contains('/')) by {
        if dot.contains('/') {
            let i = choose|i: int| 0 <= i < dot.len() && dot[i] == '/';
            assert(dot[i] == '.');
        }
    }
    lemma_concat_excludes(a, dot, '/');
    lemma_concat_excludes(a + dot, b, '/');
    lemma_concat_excludes(a + dot + b, dot, '/');
    lemma_concat_excludes(a + dot + b + dot, c, '/');
    lemma_concat_excludes(a + dot + b + dot + c, dot, '/');
    lemma_concat_excludes(a + dot + b + dot + c + dot, d, '/');
}

/// Dotted-decimal notation reads back as the address, under either rule for
/// leading zeros.
pub proof fn lemma_quad_text_reads_back(addr: Ipv4Address, strict: bool)
    ensures
        quad_of(address_text(addr), strict) == Some(addr),
{
    lemma_address_text_pieces(addr);
    lemma_octet_text_reads_back(addr.a, strict);
    lemma_octet_text_reads_back(addr.b, strict);
    lemma_octet_text_reads_back(addr.c, strict);
    lemma_octet_text_reads_back(addr.d, strict);
}

/// The text of an address reads back as the address.
pub proof fn lemma_address_text_reads_back(addr: Ipv4Address)
    ensures
        address_of(address_text(addr)) == Some(addr),
{
    lemma_quad_text_reads_back(addr, true);
}

/// The text of a network with a prefix length of at most 32 reads back as
/// the network.
pub proof fn lemma_network_text_reads_back(net: Ipv4Network)
    requires
        net.wf(),
    ensures
        network_of(network_text(net)) == Some(net),
{
    let quad = address_text(net.addr);
    let len = decimal_text(net.prefix_len as nat);
    lemma_quad_text_reads_back(net.addr, false);
    lemma_address_text_has_no_slash(net.addr);
    lemma_decimal_text(net.prefix_len as nat);
    lemma_numeral_excludes(net.prefix_len as nat, '/');
    lemma_split_on_first(quad, '/', len);
    lemma_split_on_whole(len, '/');
    assert(split_on(network_text(net), '/') =~= seq![quad, len]);
    assert(prefix_len_of(len) == Some(net.prefix_len));
}

} // verus!
