//! What the command line asks for: a ticker and a kind of model, and from them
//! the names of the files to read and write.

use vstd::prelude::*;

use crate::text::{joined, same_text};

verus! {

/// The kinds of model that can be trained.
#[derive(Clone, Copy, Debug, PartialEq, Eq, Structural)]
pub enum ModelType {
    Lstm,
    Gru,
}

/// The text that `str::to_lowercase` makes of a text.
pub uninterp spec fn lowercase(text: Seq<char>) -> Seq<char>;

/// The text that `str::to_uppercase` makes of a text.
pub uninterp spec fn uppercase(text: Seq<char>) -> Seq<char>;

/// The text holds ASCII characters only.
pub open spec fn is_ascii(text: Seq<char>) -> bool {
    forall|i: int| 0 <= i < text.len() ==> (#[trigger] text[i]) as u32 <= 127
}

/// The lower case of an ASCII letter; any other character itself.
pub open spec fn ascii_lower(c: char) -> char {
    if 'A' <= c <= 'Z' {
        (c as u32 + 32) as char
    } else {
        c
    }
}

/// The upper case of an ASCII letter; any other character itself.
pub open spec fn ascii_upper(c: char) -> char {
    if 'a' <= c <= 'z' {
        (c as u32 - 32) as char
    } else {
        c
    }
}

/// `str::to_lowercase`: a function of the text alone, which maps ASCII text
/// letter by letter.
#[verifier::external_body]
fn to_lowercase(text: &str) -> (lower: String)
    ensures
        lower@ == lowercase(text@),
        is_ascii(text@) ==> lower@ == text@.map_values(|c: char| ascii_lower(c)),
{
    text.to_lowercase()
}

/// `str::to_uppercase`: a function of the text alone, which maps ASCII text
/// letter by letter.
#[verifier::external_body]
fn to_uppercase(text: &str) -> (upper: String)
    ensures
        upper@ == uppercase(text@),
        is_ascii(text@) ==> upper@ == text@.map_values(|c: char| ascii_upper(c)),
{
    text.to_uppercase()
}

/// The ticker that the command line asks for: the first argument in upper case,
/// AAPL if there is none.
pub open spec fn ticker_of(args: Seq<Seq<char>>) -> Seq<char> {
    if args.len() > 1 {
        uppercase(args[1])
    } else {
        "AAPL"@
    }
}

/// The name of the kind of model that the command line asks for: the second
/// argument in lower case, lstm if there is none.
pub open spec fn model_name_of(args: Seq<Seq<char>>) -> Seq<char> {
    if args.len() > 2 {
        lowercase(args[2])
    } else {
        "lstm"@
    }
}

/// The kind of model of that name.
pub open spec fn kind_of(name: Seq<char>) -> Option<ModelType> {
    if name == "lstm"@ {
        Some(ModelType::Lstm)
    } else if name == "gru"@ {
        Some(ModelType::Gru)
    } else {
        None
    }
}

/// The name of a kind of model.
pub open spec fn name_of(kind: ModelType) -> Seq<char> {
    match kind {
        ModelType::Lstm => "lstm"@,
        ModelType::Gru => "gru"@,
    }
}

impl ModelType {
    /// The kind of model of that name.
    pub fn from_name(name: &str) -> (kind: Option<ModelType>)
        ensures
            kind == kind_of(name@),
            kind == Some(ModelType::Lstm) <==> name@ == "lstm"@,
            kind == Some(ModelType::Gru) <==> name@ == "gru"@,
    {
        proof {
            names_and_kinds_agree(name@, ModelType::Lstm);
            names_and_kinds_agree(name@, ModelType::Gru);
        }
        if same_text(name, "lstm") {
            Some(ModelType::Lstm)
        } else if same_text(name, "gru") {
            Some(ModelType::Gru)
        } else {
            None
        }
    }

    /// The name of this kind of model.
    pub fn name(self) -> (name: &'static str)
        ensures
            name@ == name_of(self),
            self == ModelType::Lstm ==> name@ == "lstm"@,
            self == ModelType::Gru ==> name@ == "gru"@,
    {
        match self {
            ModelType::Lstm => "lstm",
            ModelType::Gru => "gru",
        }
    }
}

/// A name stands for a kind of model exactly if it is that kind's own name.
pub proof fn names_and_kinds_agree(name: Seq<char>, kind: ModelType)
    ensures
        kind_of(name) == Some(kind) <==> name == name_of(kind),
{
    reveal_strlit("lstm");
    reveal_strlit("gru");
    assert("lstm"@.len() != "gru"@.len());
}

/// The ticker that the command line asks for; `args` starts with the program's name.
pub fn requested_ticker(args: &Vec<String>) -> (ticker: String)
    ensures
        ticker@ == ticker_of(crate::text::texts(args@)),
        args@.len() <= 1 ==> ticker@ == "AAPL"@,
        args@.len() > 1 ==> ticker@ == uppercase(args@[1]@),
        args@.len() > 1 && is_ascii(args@[1]@) ==> ticker@ == args@[1]@.map_values(
            |c: char| ascii_upper(c),
        ),
{
    if args.len() > 1 {
        to_uppercase(args[1].as_str())
    } else {
        "AAPL".to_owned()
    }
}

/// The name of the kind of model that the command line asks for; `args` starts
/// with the program's name.
pub fn requested_model_name(args: &Vec<String>) -> (name: String)
    ensures
        name@ == model_name_of(crate::text::texts(args@)),
        args@.len() <= 2 ==> name@ == "lstm"@,
        args@.len() > 2 ==> name@ == lowercase(args@[2]@),
        args@.len() > 2 && is_ascii(args@[2]@) ==> name@ == args@[2]@.map_values(
            |c: char| ascii_lower(c),
        ),
{
    if args.len() > 2 {
        to_lowercase(args[2].as_str())
    } else {
        "lstm".to_owned()
    }
}

/// The ticker under which a stored model is looked up for a prediction: the first
/// argument as it was given, AAPL if there is none.
pub open spec fn prediction_ticker_of(args: Seq<Seq<char>>) -> Seq<char> {
    if args.len() > 1 {
        args[1]
    } else {
        "AAPL"@
    }
}

/// The ticker under which a stored model is looked up for a prediction.
pub fn prediction_ticker(args: &Vec<String>) -> (ticker: String)
    ensures
        ticker@ == prediction_ticker_of(crate::text::texts(args@)),
        args@.len() <= 1 ==> ticker@ == "AAPL"@,
        args@.len() > 1 ==> ticker@ == args@[1]@,
{
    if args.len() > 1 {
        args[1].clone()
    } else {
        "AAPL".to_owned()
    }
}

/// A valid command line.
#[derive(Debug)]
pub struct Request {
    pub ticker: String,
    pub model_type: ModelType,
}

/// What the command line asks for. It is refused, with the text of the error,
/// exactly if it names no kind of model.
pub fn parse_request(args: &Vec<String>) -> (request: Result<Request, String>)
    ensures
        match request {
            Ok(request) => {
                &&& request.ticker@ == ticker_of(crate::text::texts(args@))
                &&& kind_of(model_name_of(crate::text::texts(args@))) == Some(request.model_type)
            },
            Err(message) => {
                &&& message@ == "Invalid model type"@
                &&& kind_of(model_name_of(crate::text::texts(args@))) is None
            },
        },
        args@.len() <= 2 ==> (request matches Ok(request) && request.model_type == ModelType::Lstm),
        args@.len() > 2 ==> (request matches Ok(request) && request.model_type == ModelType::Lstm
            <==> lowercase(args@[2]@) == "lstm"@),
        args@.len() > 2 ==> (request matches Ok(request) && request.model_type == ModelType::Gru
            <==> lowercase(args@[2]@) == "gru"@),
        request matches Ok(request) ==> request.ticker@ == if args@.len() > 1 {
            uppercase(args@[1]@)
        } else {
            "AAPL"@
        },
        args@.len() > 1 && is_ascii(args@[1]@) ==> ticker_of(crate::text::texts(args@))
            == args@[1]@.map_values(|c: char| ascii_upper(c)),
        args@.len() > 2 && is_ascii(args@[2]@) ==> model_name_of(crate::text::texts(args@))
            == args@[2]@.map_values(|c: char| ascii_lower(c)),
{
    let ticker = requested_ticker(args);
    let name = requested_model_name(args);
    proof {
        names_and_kinds_agree(name@, ModelType::Lstm);
        names_and_kinds_agree(name@, ModelType::Gru);
    }
    match ModelType::from_name(name.as_str()) {
        Some(model_type) => Ok(Request { ticker, model_type }),
        None => Err("Invalid model type".to_owned()),
    }
}

/// The name of the file that a model is stored in: the ticker, then `suffix`.
pub fn model_file_name(ticker: &str, suffix: &str) -> (name: String)
    ensures
        name@ == ticker@ + suffix@,
{
    joined(ticker, suffix)
}

/// Where a model is stored: in the directory of its ticker and kind, in a file of
/// this name.
#[derive(Debug)]
pub struct ModelLocation {
    pub ticker: String,
    pub model_type: ModelType,
    pub file_name: String,
}

/// Where the model of the kind called `model_name` is stored; nowhere if there is
/// no such kind. The name is taken as it is: LSTM is not the name of a kind.
pub fn model_location(model_name: &str, ticker: &str, suffix: &str) -> (location: Option<
    ModelLocation,
>)
    ensures
        match location {
            Some(location) => {
                &&& kind_of(model_name@) == Some(location.model_type)
                &&& location.ticker@ == ticker@
                &&& location.file_name@ == ticker@ + suffix@
            },
            None => kind_of(model_name@) is None,
        },
        location is None <==> model_name@ != "lstm"@ && model_name@ != "gru"@,
        location matches Some(location) ==> model_name@ == if location.model_type
            == ModelType::Lstm {
            "lstm"@
        } else {
            "gru"@
        },
{
    match ModelType::from_name(model_name) {
        Some(model_type) => Some(
            ModelLocation {
                ticker: ticker.to_owned(),
                model_type,
                file_name: model_file_name(ticker, suffix),
            },
        ),
        None => None,
    }
}

/// A prediction looks for the model under the name that training stores it under
/// exactly if the ticker is left out or given in upper case.
pub proof fn prediction_finds_the_trained_model(args: Seq<Seq<char>>, suffix: Seq<char>)
    ensures
        prediction_ticker_of(args) + suffix == ticker_of(args) + suffix <==> args.len() <= 1
            || uppercase(args[1]) == args[1],
{
    let looked_up = prediction_ticker_of(args) + suffix;
    let stored = ticker_of(args) + suffix;
    if looked_up == stored {
        assert(prediction_ticker_of(args) =~= looked_up.take(looked_up.len() - suffix.len()));
        assert(ticker_of(args) =~= stored.take(stored.len() - suffix.len()));
    }
}

/// There are two kinds of model, and each has a name of its own.
pub proof fn kinds_have_names()
    ensures
        name_of(ModelType::Lstm) == "lstm"@,
        name_of(ModelType::Gru) == "gru"@,
        kind_of("lstm"@) == Some(ModelType::Lstm),
        kind_of("gru"@) == Some(ModelType::Gru),
        forall|name: Seq<char>|
            name != "lstm"@ && name != "gru"@ ==> #[trigger] kind_of(name) is None,
{
    names_and_kinds_agree("lstm"@, ModelType::Lstm);
    names_and_kinds_agree("gru"@, ModelType::Gru);
}

/// A command line that ends before the second argument asks for an LSTM model,
/// whatever else it says; one without any argument asks for AAPL.
pub proof fn what_is_left_out_has_defaults(args: Seq<Seq<char>>)
    ensures
        args.len() <= 2 ==> model_name_of(args) == "lstm"@ && kind_of(model_name_of(args)) == Some(
            ModelType::Lstm,
        ),
        args.len() <= 1 ==> ticker_of(args) == "AAPL"@ && prediction_ticker_of(args) == "AAPL"@,
{
}

/// The kind of model is told by the second argument alone, in whatever case, and
/// the ticker by the first: two command lines that agree in the one agree in the
/// other, however much they differ elsewhere.
pub proof fn each_argument_has_one_meaning(one: Seq<Seq<char>>, other: Seq<Seq<char>>)
    ensures
        one.len() > 2 && other.len() > 2 && lowercase(one[2]) == lowercase(other[2])
            ==> model_name_of(one) == model_name_of(other),
        one.len() > 2 && other.len() <= 2 && lowercase(one[2]) == "lstm"@ ==> model_name_of(one)
            == model_name_of(other),
        one.len() > 2 ==> model_name_of(one) == lowercase(one[2]),
        one.len() > 1 && other.len() > 1 && uppercase(one[1]) == uppercase(other[1]) ==> ticker_of(
            one,
        ) == ticker_of(other),
        one.len() > 1 ==> ticker_of(one) == uppercase(one[1]) && prediction_ticker_of(one)
            == one[1],
{
}

} // verus!
