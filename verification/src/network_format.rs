//! The line-oriented text format of a saved network.
//!
//! Line 0 holds the layer sizes, line 1 the activation names, then one line
//! of weight coefficients and one line of bias entries per non-input layer,
//! and the last line the loss name; tokens on a line are separated by one
//! space. The scalar coefficients pass through this module as opaque tokens:
//! rendering them from numbers and reading them back is the caller's side.

use crate::activations::{
    lemma_dense_activation_name_clean, lemma_dense_activation_name_round_trip, DenseActivation,
};
use crate::losses::{lemma_loss_name_clean, lemma_loss_name_round_trip, Loss};
use crate::text::{
    dec_of, digits_ok, is_dec_digit, join_spec, join_with, lemma_join_free, lemma_split_join,
    lemma_val_of_dec_of, parse_usize, split_spec, split_str, token_views, usize_to_string, val_of,
};
use vstd::prelude::*;

verus! {

/// Why a network text was rejected: the line count is wrong, a layer size
/// is not a number that fits, an activation name is unknown, a weight or
/// bias line has the wrong number of tokens, or the loss name is unknown.
#[derive(Clone, Copy, Debug, PartialEq, Eq, Structural)]
pub enum NetworkFormatError {
    Structure,
    Number,
    Activation,
    Shape,
    LossName,
}

/// The lines of a network text.
pub open spec fn net_lines(s: Seq<char>) -> Seq<Seq<char>> {
    split_spec(s, '\n')
}

/// The layer count a well-formed text declares: lines are the sizes, the
/// names, two per non-input layer, and the loss.
pub open spec fn layer_count(s: Seq<char>) -> int {
    (net_lines(s).len() - 1) / 2
}

/// The size tokens of line 0.
pub open spec fn shape_tokens(s: Seq<char>) -> Seq<Seq<char>> {
    split_spec(net_lines(s)[0], ' ')
}

/// The declared size of layer `i`.
pub open spec fn range_at(s: Seq<char>, i: int) -> int {
    val_of(shape_tokens(s)[i])
}

/// The activation-name tokens of line 1.
pub open spec fn act_tokens(s: Seq<char>) -> Seq<Seq<char>> {
    split_spec(net_lines(s)[1], ' ')
}

/// The weight tokens of non-input layer `i`.
pub open spec fn weight_tokens(s: Seq<char>, i: int) -> Seq<Seq<char>> {
    split_spec(net_lines(s)[2 + 2 * i], ' ')
}

/// The bias tokens of non-input layer `i`.
pub open spec fn bias_tokens(s: Seq<char>, i: int) -> Seq<Seq<char>> {
    split_spec(net_lines(s)[3 + 2 * i], ' ')
}

/// An odd line count of at least five: sizes, names, at least one
/// weight/bias pair, and the loss.
pub open spec fn structure_ok(s: Seq<char>) -> bool {
    net_lines(s).len() >= 5 && net_lines(s).len() % 2 == 1
}

/// One size token per layer, each a digit run whose value fits the machine
/// word.
pub open spec fn ranges_ok(s: Seq<char>) -> bool {
    &&& shape_tokens(s).len() == layer_count(s)
    &&& forall|i: int|
        0 <= i < layer_count(s) ==> digits_ok(#[trigger] shape_tokens(s)[i]) && val_of(
            shape_tokens(s)[i],
        ) <= usize::MAX
}

/// One known activation name per non-input layer.
pub open spec fn activations_ok(s: Seq<char>) -> bool {
    &&& act_tokens(s).len() == layer_count(s) - 1
    &&& forall|i: int|
        0 <= i < layer_count(s) - 1 ==> DenseActivation::of_name(#[trigger] act_tokens(s)[i]) is Ok
}

/// Every weight line holds one token per coefficient of its matrix, every
/// bias line one per entry of its column.
pub open spec fn counts_ok(s: Seq<char>) -> bool {
    forall|i: int|
        0 <= i < layer_count(s) - 1 ==> (#[trigger] weight_tokens(s, i)).len() == range_at(s, i)
            * range_at(s, i + 1) && bias_tokens(s, i).len() == range_at(s, i + 1)
}

/// The last line is a known loss name.
pub open spec fn loss_ok(s: Seq<char>) -> bool {
    Loss::of_name(net_lines(s)[net_lines(s).len() - 1]) is Ok
}

/// A text decodes to a network description exactly when all the conditions
/// hold.
pub open spec fn parse_ok(s: Seq<char>) -> bool {
    structure_ok(s) && ranges_ok(s) && activations_ok(s) && counts_ok(s) && loss_ok(s)
}

/// The first condition that fails, in the order the text is read.
pub open spec fn parse_err(s: Seq<char>) -> NetworkFormatError {
    if !structure_ok(s) {
        NetworkFormatError::Structure
    } else if !ranges_ok(s) {
        NetworkFormatError::Number
    } else if !activations_ok(s) {
        NetworkFormatError::Activation
    } else if !counts_ok(s) {
        NetworkFormatError::Shape
    } else {
        NetworkFormatError::LossName
    }
}

/// A parsed network description: layer sizes, activation selectors, the
/// loss selector, and the weight and bias coefficients as opaque tokens.
#[derive(Debug)]
pub struct ParsedNetwork {
    pub ranges: Vec<usize>,
    pub activations: Vec<DenseActivation>,
    pub loss: Loss,
    pub weights: Vec<Vec<String>>,
    pub biases: Vec<Vec<String>>,
}

/// Decodes a network text, accepting exactly the well-formed texts and
/// naming the first condition a rejected text breaks.
#[verifier::rlimit(100)]
pub fn parse_network(contents: &str) -> (r: Result<ParsedNetwork, NetworkFormatError>)
    ensures
        r is Ok <==> parse_ok(contents@),
        r matches Ok(p) ==> {
            &&& p.ranges@.len() == layer_count(contents@)
            &&& forall|i: int|
                0 <= i < p.ranges@.len() ==> #[trigger] p.ranges@[i] == range_at(contents@, i)
            &&& p.activations@.len() == layer_count(contents@) - 1
            &&& forall|i: int|
                0 <= i < p.activations@.len() ==> DenseActivation::of_name(act_tokens(contents@)[i])
                    == Ok::<DenseActivation, ()>(#[trigger] p.activations@[i])
            &&& Loss::of_name(net_lines(contents@)[net_lines(contents@).len() - 1]) == Ok::<
                Loss,
                (),
            >(p.loss)
            &&& p.weights@.len() == layer_count(contents@) - 1
            &&& forall|i: int|
                0 <= i < p.weights@.len() ==> token_views((#[trigger] p.weights@[i])@)
                    == weight_tokens(contents@, i)
            &&& p.biases@.len() == layer_count(contents@) - 1
            &&& forall|i: int|
                0 <= i < p.biases@.len() ==> token_views((#[trigger] p.biases@[i])@) == bias_tokens(
                    contents@,
                    i,
                )
        },
        r matches Err(e) ==> e == parse_err(contents@),
{
    let ghost s = contents@;
    let lines = split_str(contents, '\n');
    let ll = lines.len();
    if ll < 5 || ll % 2 == 0 {
        return Err(NetworkFormatError::Structure);
    }
    let nb = (ll - 1) / 2;
    proof {
        assert(nb == layer_count(s));
        assert(net_lines(s)[0] == lines@[0]@);
    }
    let shape_toks = split_str(lines[0].as_str(), ' ');
    if shape_toks.len() != nb {
        return Err(NetworkFormatError::Number);
    }
    let mut ranges: Vec<usize> = Vec::new();
    let mut i: usize = 0;
    while i < nb
        invariant
            s == contents@,
            token_views(lines@) == net_lines(s),
            ll == lines@.len(),
            ll >= 5 && ll % 2 == 1,
            nb == layer_count(s),
            token_views(shape_toks@) == shape_tokens(s),
            shape_toks@.len() == nb,
            i <= nb,
            ranges@.len() == i,
            forall|j: int|
                0 <= j < i ==> digits_ok(#[trigger] shape_tokens(s)[j]) && val_of(
                    shape_tokens(s)[j],
                ) <= usize::MAX,
            forall|j: int| 0 <= j < i ==> #[trigger] ranges@[j] == range_at(s, j),
        decreases nb - i,
    {
        proof {
            assert(shape_tokens(s)[i as int] == shape_toks@[i as int]@);
        }
        match parse_usize(shape_toks[i].as_str()) {
            Ok(v) => {
                ranges.push(v);
            },
            Err(_) => {
                return Err(NetworkFormatError::Number);
            },
        }
        i += 1;
    }
    proof {
        assert(ranges_ok(s));
        assert(net_lines(s)[1] == lines@[1]@);
    }
    let act_toks = split_str(lines[1].as_str(), ' ');
    if act_toks.len() != nb - 1 {
        proof {
            assert(act_tokens(s).len() != layer_count(s) - 1);
            assert(!activations_ok(s));
        }
        return Err(NetworkFormatError::Activation);
    }
    let mut acts: Vec<DenseActivation> = Vec::new();
    let mut i2: usize = 0;
    while i2 < nb - 1
        invariant
            s == contents@,
            structure_ok(s),
            ranges_ok(s),
            token_views(act_toks@) == act_tokens(s),
            act_toks@.len() == nb - 1,
            nb == layer_count(s),
            i2 <= nb - 1,
            acts@.len() == i2,
            forall|j: int|
                0 <= j < i2 ==> DenseActivation::of_name(#[trigger] act_tokens(s)[j]) is Ok,
            forall|j: int|
                0 <= j < i2 ==> DenseActivation::of_name(act_tokens(s)[j]) == Ok::<
                    DenseActivation,
                    (),
                >(#[trigger] acts@[j]),
        decreases nb - 1 - i2,
    {
        proof {
            assert(act_tokens(s)[i2 as int] == act_toks@[i2 as int]@);
        }
        match DenseActivation::from_str(act_toks[i2].as_str()) {
            Ok(a) => {
                acts.push(a);
            },
            Err(_) => {
                return Err(NetworkFormatError::Activation);
            },
        }
        i2 += 1;
    }
    proof {
        assert(activations_ok(s));
    }
    let mut weights: Vec<Vec<String>> = Vec::new();
    let mut biases: Vec<Vec<String>> = Vec::new();
    let mut i3: usize = 0;
    while i3 < nb - 1
        invariant
            s == contents@,
            structure_ok(s),
            ranges_ok(s),
            activations_ok(s),
            token_views(lines@) == net_lines(s),
            ll == lines@.len(),
            ll >= 5 && ll % 2 == 1,
            nb == layer_count(s),
            nb >= 2,
            ranges@.len() == nb,
            forall|j: int| 0 <= j < nb ==> #[trigger] ranges@[j] == range_at(s, j),
            i3 <= nb - 1,
            weights@.len() == i3,
            biases@.len() == i3,
            forall|j: int|
                0 <= j < i3 ==> (#[trigger] weight_tokens(s, j)).len() == range_at(s, j) * range_at(
                    s,
                    j + 1,
                ) && bias_tokens(s, j).len() == range_at(s, j + 1),
            forall|j: int|
                0 <= j < i3 ==> token_views((#[trigger] weights@[j])@) == weight_tokens(s, j),
            forall|j: int|
                0 <= j < i3 ==> token_views((#[trigger] biases@[j])@) == bias_tokens(s, j),
        decreases nb - 1 - i3,
    {
        proof {
            assert(2 * nb + 1 == ll) by {
                assert(ll % 2 == 1);
                assert(nb == (ll - 1) / 2);
            }
            assert(net_lines(s)[2 + 2 * i3] == lines@[2 + 2 * i3]@);
            assert(net_lines(s)[3 + 2 * i3] == lines@[3 + 2 * i3]@);
        }
        let wt = split_str(lines[2 + 2 * i3].as_str(), ' ');
        let wl = wt.len();
        let expected = ranges[i3].checked_mul(ranges[i3 + 1]);
        let ok_count = match expected {
            Some(e) => wl == e,
            None => false,
        };
        proof {
            assert(weight_tokens(s, i3 as int) == token_views(wt@));
            assert(weight_tokens(s, i3 as int).len() == wl);
        }
        if !ok_count {
            proof {
                assert(weight_tokens(s, i3 as int).len() != range_at(s, i3 as int) * range_at(
                    s,
                    i3 + 1 as int,
                ));
                assert(!counts_ok(s));
            }
            return Err(NetworkFormatError::Shape);
        }
        let bt = split_str(lines[3 + 2 * i3].as_str(), ' ');
        proof {
            assert(bias_tokens(s, i3 as int) == token_views(bt@));
            assert(bias_tokens(s, i3 as int).len() == bt@.len());
        }
        if bt.len() != ranges[i3 + 1] {
            proof {
                assert(bias_tokens(s, i3 as int).len() != range_at(s, i3 + 1 as int));
                assert(!counts_ok(s));
            }
            return Err(NetworkFormatError::Shape);
        }
        weights.push(wt);
        biases.push(bt);
        proof {
            assert(weight_tokens(s, i3 as int).len() == range_at(s, i3 as int) * range_at(
                s,
                i3 + 1 as int,
            ));
            assert(bias_tokens(s, i3 as int).len() == range_at(s, i3 + 1 as int));
        }
        i3 += 1;
    }
    proof {
        assert(counts_ok(s));
        assert(net_lines(s)[ll - 1] == lines@[ll - 1]@);
    }
    let loss = match Loss::from_str(lines[ll - 1].as_str()) {
        Ok(l) => l,
        Err(_) => {
            return Err(NetworkFormatError::LossName);
        },
    };
    Ok(ParsedNetwork { ranges, activations: acts, loss, weights, biases })
}

/// The lines a network description renders to: sizes, names, a weight and a
/// bias line per non-input layer, the loss name.
pub open spec fn rendered_lines(
    ranges: Seq<usize>,
    acts: Seq<DenseActivation>,
    loss: Loss,
    wlines: Seq<Seq<char>>,
    blines: Seq<Seq<char>>,
) -> Seq<Seq<char>> {
    seq![
        join_spec(ranges.map_values(|r: usize| dec_of(r as int)), ' '),
        join_spec(acts.map_values(|a: DenseActivation| a.name()), ' '),
    ] + Seq::new(
        (2 * wlines.len()) as nat,
        |k: int|
            if k % 2 == 0 {
                wlines[k / 2]
            } else {
                blines[k / 2]
            },
    ) + seq![loss.name()]
}

/// Encodes a network description: the rendered lines joined by newlines,
/// the tokens of each line joined by spaces.
#[verifier::rlimit(100)]
pub fn render_network(
    ranges: &Vec<usize>,
    activations: &Vec<DenseActivation>,
    loss: &Loss,
    weights: &Vec<Vec<String>>,
    biases: &Vec<Vec<String>>,
) -> (r: String)
    requires
        weights@.len() == biases@.len(),
    ensures
        r@ == join_spec(
            rendered_lines(
                ranges@,
                activations@,
                *loss,
                weights@.map_values(|ts: Vec<String>| join_spec(token_views(ts@), ' ')),
                biases@.map_values(|ts: Vec<String>| join_spec(token_views(ts@), ' ')),
            ),
            '\n',
        ),
{
    proof {
        reveal_strlit(" ");
        reveal_strlit("\n");
    }
    let ghost wlines = weights@.map_values(|ts: Vec<String>| join_spec(token_views(ts@), ' '));
    let ghost blines = biases@.map_values(|ts: Vec<String>| join_spec(token_views(ts@), ' '));
    let mut lines: Vec<String> = Vec::new();

    let mut rstrs: Vec<String> = Vec::new();
    let mut i: usize = 0;
    while i < ranges.len()
        invariant
            i <= ranges@.len(),
            rstrs@.len() == i,
            forall|j: int| 0 <= j < i ==> (#[trigger] rstrs@[j])@ == dec_of(ranges@[j] as int),
        decreases ranges@.len() - i,
    {
        rstrs.push(usize_to_string(ranges[i]));
        i += 1;
    }
    proof {
        assert(token_views(rstrs@) =~= ranges@.map_values(|r: usize| dec_of(r as int)));
    }
    lines.push(join_with(&rstrs, " "));

    let mut astrs: Vec<String> = Vec::new();
    let mut i2: usize = 0;
    while i2 < activations.len()
        invariant
            i2 <= activations@.len(),
            astrs@.len() == i2,
            forall|j: int| 0 <= j < i2 ==> (#[trigger] astrs@[j])@ == activations@[j].name(),
        decreases activations@.len() - i2,
    {
        astrs.push(activations[i2].to_string());
        i2 += 1;
    }
    proof {
        assert(token_views(astrs@) =~= activations@.map_values(|a: DenseActivation| a.name()));
    }
    lines.push(join_with(&astrs, " "));

    let mut i3: usize = 0;
    while i3 < weights.len()
        invariant
            weights@.len() == biases@.len(),
            wlines == weights@.map_values(|ts: Vec<String>| join_spec(token_views(ts@), ' ')),
            blines == biases@.map_values(|ts: Vec<String>| join_spec(token_views(ts@), ' ')),
            i3 <= weights@.len(),
            lines@.len() == 2 + 2 * i3,
            forall|k: int|
                0 <= k < 2 * i3 ==> (#[trigger] lines@[2 + k])@ == (if k % 2 == 0 {
                    wlines[k / 2]
                } else {
                    blines[k / 2]
                }),
            token_views(lines@).take(2) =~= seq![
                join_spec(ranges@.map_values(|r: usize| dec_of(r as int)), ' '),
                join_spec(activations@.map_values(|a: DenseActivation| a.name()), ' '),
            ],
        decreases weights@.len() - i3,
    {
        proof {
            reveal_strlit(" ");
        }
        lines.push(join_with(&weights[i3], " "));
        lines.push(join_with(&biases[i3], " "));
        proof {
            assert((2 * i3) % 2 == 0 && (2 * i3) / 2 == i3 && (2 * i3 + 1) % 2 == 1 && (2 * i3 + 1)
                / 2 == i3) by (nonlinear_arith);
            assert(wlines[i3 as int] == join_spec(token_views(weights@[i3 as int]@), ' '));
            assert(blines[i3 as int] == join_spec(token_views(biases@[i3 as int]@), ' '));
            assert(lines@[2 + 2 * i3 as int]@ == wlines[i3 as int]);
            assert(lines@[3 + 2 * i3 as int]@ == blines[i3 as int]);
            assert(token_views(lines@).take(2) =~= seq![
                join_spec(ranges@.map_values(|r: usize| dec_of(r as int)), ' '),
                join_spec(activations@.map_values(|a: DenseActivation| a.name()), ' '),
            ]);
        }
        i3 += 1;
    }
    lines.push(loss.to_string());
    proof {
        let rl = rendered_lines(ranges@, activations@, *loss, wlines, blines);
        assert(wlines.len() == weights@.len());
        assert(rl.len() == 3 + 2 * wlines.len());
        assert(token_views(lines@).len() == rl.len());
        assert forall|k: int| 0 <= k < rl.len() implies token_views(lines@)[k] == rl[k] by {
            assert(token_views(lines@)[k] == lines@[k]@);
            if k == 0 {
                assert(token_views(lines@).take(2)[0] == token_views(lines@)[0]);
                assert(rl[0] == join_spec(ranges@.map_values(|r: usize| dec_of(r as int)), ' '));
            } else if k == 1 {
                assert(token_views(lines@).take(2)[1] == token_views(lines@)[1]);
                assert(rl[1] == join_spec(
                    activations@.map_values(|a: DenseActivation| a.name()),
                    ' ',
                ));
            } else if k < rl.len() - 1 {
                let kk = k - 2;
                assert(lines@[2 + kk]@ == (if kk % 2 == 0 {
                    wlines[kk / 2]
                } else {
                    blines[kk / 2]
                }));
                assert(k == 2 + kk);
            } else {
                assert(lines@[k]@ == loss.name());
            }
        }
        assert(token_views(lines@) =~= rl);
    }
    join_with(&lines, "\n")
}

/// No character of any token is a space or a newline.
pub open spec fn tokens_clean(toks: Seq<Seq<Seq<char>>>) -> bool {
    forall|i: int, j: int, k: int|
        0 <= i < toks.len() && 0 <= j < toks[i].len() && 0 <= k < toks[i][j].len() ==> (
        #[trigger] toks[i][j][k]) != ' ' && toks[i][j][k] != '\n'
}

/// The text a token-level network description renders to.
pub open spec fn rendered_text(
    ranges: Seq<usize>,
    acts: Seq<DenseActivation>,
    loss: Loss,
    wtoks: Seq<Seq<Seq<char>>>,
    btoks: Seq<Seq<Seq<char>>>,
) -> Seq<char> {
    join_spec(
        rendered_lines(
            ranges,
            acts,
            loss,
            wtoks.map_values(|ts: Seq<Seq<char>>| join_spec(ts, ' ')),
            btoks.map_values(|ts: Seq<Seq<char>>| join_spec(ts, ' ')),
        ),
        '\n',
    )
}

/// Encoding a network and decoding the text gives the description back:
/// the rendered text is well formed and declares exactly the sizes, the
/// selectors and the coefficient tokens it was built from, provided the
/// layer sizes are positive and no token holds a space or a newline.
#[verifier::rlimit(100)]
pub proof fn lemma_render_parse_round_trip(
    ranges: Seq<usize>,
    acts: Seq<DenseActivation>,
    loss: Loss,
    wtoks: Seq<Seq<Seq<char>>>,
    btoks: Seq<Seq<Seq<char>>>,
)
    requires
        ranges.len() >= 2,
        acts.len() == ranges.len() - 1,
        wtoks.len() == ranges.len() - 1,
        btoks.len() == ranges.len() - 1,
        forall|i: int| 0 <= i < ranges.len() ==> #[trigger] ranges[i] >= 1,
        forall|i: int|
            0 <= i < wtoks.len() ==> (#[trigger] wtoks[i]).len() == ranges[i] * ranges[i + 1],
        forall|i: int| 0 <= i < btoks.len() ==> (#[trigger] btoks[i]).len() == ranges[i + 1],
        tokens_clean(wtoks),
        tokens_clean(btoks),
    ensures
        parse_ok(rendered_text(ranges, acts, loss, wtoks, btoks)),
        layer_count(rendered_text(ranges, acts, loss, wtoks, btoks)) == ranges.len(),
        forall|i: int|
            0 <= i < ranges.len() ==> range_at(rendered_text(ranges, acts, loss, wtoks, btoks), i)
                == ranges[i],
        forall|i: int|
            0 <= i < acts.len() ==> DenseActivation::of_name(
                act_tokens(rendered_text(ranges, acts, loss, wtoks, btoks))[i],
            ) == Ok::<DenseActivation, ()>(acts[i]),
        Loss::of_name(
            net_lines(rendered_text(ranges, acts, loss, wtoks, btoks)).last(),
        ) == Ok::<Loss, ()>(loss),
        forall|i: int|
            0 <= i < wtoks.len() ==> weight_tokens(
                rendered_text(ranges, acts, loss, wtoks, btoks),
                i,
            ) == wtoks[i],
        forall|i: int|
            0 <= i < btoks.len() ==> bias_tokens(rendered_text(ranges, acts, loss, wtoks, btoks), i)
                == btoks[i],
{
    let ll = ranges.len();
    let dec_toks = ranges.map_values(|r: usize| dec_of(r as int));
    let name_toks = acts.map_values(|a: DenseActivation| a.name());
    let wlines = wtoks.map_values(|ts: Seq<Seq<char>>| join_spec(ts, ' '));
    let blines = btoks.map_values(|ts: Seq<Seq<char>>| join_spec(ts, ' '));
    let lines = rendered_lines(ranges, acts, loss, wlines, blines);
    let text = rendered_text(ranges, acts, loss, wtoks, btoks);
    assert(lines.len() == 3 + 2 * (ll - 1));

    // every token of every line is free of spaces' separator characters
    assert forall|i: int, j: int|
        0 <= i < dec_toks.len() && 0 <= j < dec_toks[i].len() implies #[trigger] dec_toks[i][j]
        != '\n' && dec_toks[i][j] != ' ' by {
        lemma_val_of_dec_of(ranges[i] as int);
        assert(is_dec_digit(dec_toks[i][j]));
    }
    assert forall|i: int, j: int|
        0 <= i < name_toks.len() && 0 <= j < name_toks[i].len() implies #[trigger] name_toks[i][j]
        != '\n' && name_toks[i][j] != ' ' by {
        lemma_dense_activation_name_clean(acts[i]);
        assert(acts[i].name()[j] != ' ' && acts[i].name()[j] != '\n');
    }
    lemma_loss_name_clean(loss);

    // hence no rendered line holds a newline
    lemma_join_free(dec_toks, ' ', '\n');
    lemma_join_free(name_toks, ' ', '\n');
    assert forall|i: int, j: int|
        0 <= i < wlines.len() && 0 <= j < wlines[i].len() implies #[trigger] wlines[i][j]
        != '\n' by {
        assert(wlines[i] == join_spec(wtoks[i], ' '));
        lemma_join_free(wtoks[i], ' ', '\n');
    }
    assert forall|i: int, j: int|
        0 <= i < blines.len() && 0 <= j < blines[i].len() implies #[trigger] blines[i][j]
        != '\n' by {
        assert(blines[i] == join_spec(btoks[i], ' '));
        lemma_join_free(btoks[i], ' ', '\n');
    }
    assert forall|li: int, k: int|
        0 <= li < lines.len() && 0 <= k < lines[li].len() implies #[trigger] lines[li][k]
        != '\n' by {
        if li == 0 {
            assert(lines[li] == join_spec(dec_toks, ' '));
        } else if li == 1 {
            assert(lines[li] == join_spec(name_toks, ' '));
        } else if li < lines.len() - 1 {
            let kk = li - 2;
            assert((kk % 2 == 0 && 0 <= kk / 2 < wlines.len()) || (kk % 2 == 1 && 0 <= kk / 2
                < blines.len())) by (nonlinear_arith)
                requires
                    0 <= kk < 2 * wlines.len() && blines.len() == wlines.len(),
            ;
            if kk % 2 == 0 {
                assert(lines[li] == wlines[kk / 2]);
            } else {
                assert(lines[li] == blines[kk / 2]);
            }
        } else {
            assert(lines[li] == loss.name());
        }
    }

    // the lines of the text are exactly the rendered lines
    lemma_split_join(lines, '\n');
    assert(net_lines(text) == lines);
    assert(layer_count(text) == ll) by (nonlinear_arith)
        requires
            net_lines(text).len() == 3 + 2 * (ll - 1) && layer_count(text) == (net_lines(
                text,
            ).len() - 1) / 2 && ll >= 2,
    ;
    assert(structure_ok(text)) by {
        assert(net_lines(text).len() == 2 * ll + 1);
        assert((2 * ll + 1) % 2 == 1) by (nonlinear_arith);
    }

    // line 0: the size tokens come back and denote the sizes
    assert forall|i: int, j: int|
        0 <= i < dec_toks.len() && 0 <= j < dec_toks[i].len() implies #[trigger] dec_toks[i][j]
        != ' ' by {
        lemma_val_of_dec_of(ranges[i] as int);
    }
    lemma_split_join(dec_toks, ' ');
    assert(net_lines(text)[0] == join_spec(dec_toks, ' '));
    assert(shape_tokens(text) == dec_toks);
    assert forall|i: int| 0 <= i < ll implies #[trigger] range_at(text, i) == ranges[i] by {
        lemma_val_of_dec_of(ranges[i] as int);
        assert(shape_tokens(text)[i] == dec_of(ranges[i] as int));
    }
    assert(ranges_ok(text)) by {
        assert forall|i: int| 0 <= i < layer_count(text) implies digits_ok(
            #[trigger] shape_tokens(text)[i],
        ) && val_of(shape_tokens(text)[i]) <= usize::MAX by {
            lemma_val_of_dec_of(ranges[i] as int);
        }
    }

    // line 1: the activation names come back and decode to the selectors
    assert forall|i: int, j: int|
        0 <= i < name_toks.len() && 0 <= j < name_toks[i].len() implies #[trigger] name_toks[i][j]
        != ' ' by {
        lemma_dense_activation_name_clean(acts[i]);
    }
    lemma_split_join(name_toks, ' ');
    assert(net_lines(text)[1] == join_spec(name_toks, ' '));
    assert(act_tokens(text) == name_toks);
    assert forall|i: int| 0 <= i < acts.len() implies DenseActivation::of_name(
        #[trigger] act_tokens(text)[i],
    ) == Ok::<DenseActivation, ()>(acts[i]) by {
        assert(act_tokens(text)[i] == acts[i].name());
        lemma_dense_activation_name_round_trip(acts[i]);
    }
    assert(activations_ok(text));

    // the weight and bias lines: the tokens come back
    assert forall|i: int| 0 <= i < wtoks.len() implies #[trigger] weight_tokens(text, i)
        == wtoks[i] by {
        assert((2 * i) % 2 == 0 && (2 * i) / 2 == i && (2 * i + 1) % 2 == 1 && (2 * i + 1) / 2
            == i) by (nonlinear_arith);
        assert(0 <= 2 * i < 2 * wlines.len());
        assert(lines[2 + 2 * i] == wlines[i]);
        assert(net_lines(text)[2 + 2 * i] == join_spec(wtoks[i], ' '));
        assert(wtoks[i].len() >= ranges[i + 1] >= 1) by (nonlinear_arith)
            requires
                wtoks[i].len() == ranges[i] * ranges[i + 1] && ranges[i] >= 1 && ranges[i + 1]
                    >= 1,
        ;
        lemma_split_join(wtoks[i], ' ');
    }
    assert forall|i: int| 0 <= i < btoks.len() implies #[trigger] bias_tokens(text, i)
        == btoks[i] by {
        assert((2 * i) % 2 == 0 && (2 * i + 1) % 2 == 1 && (2 * i + 1) / 2 == i)
            by (nonlinear_arith);
        assert(0 <= 2 * i + 1 < 2 * wlines.len());
        assert(lines[3 + 2 * i] == blines[i]);
        assert(net_lines(text)[3 + 2 * i] == join_spec(btoks[i], ' '));
        lemma_split_join(btoks[i], ' ');
    }
    assert(counts_ok(text));

    // the last line: the loss name comes back and decodes
    assert(net_lines(text).last() == loss.name());
    lemma_loss_name_round_trip(loss);
    assert(loss_ok(text));
}

} // verus!
