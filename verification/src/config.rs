//! The configuration of a run: its fields, and the check that a JSON
//! document has its shape.

use vstd::prelude::*;
use vstd::string::*;
use crate::json::{
    document_of, find_member, lemma_items_view, member, members_view, read_document, Json,
    JsonView, Numeral, NumeralView,
};

verus! {

/// A pair of delimiters: the text that opens a span and the text that
/// closes it.
#[derive(Clone, Debug, PartialEq, Eq)]
pub struct Delim {
    pub open: String,
    pub close: String,
}

/// The mathematical content of a [`Delim`].
pub struct DelimView {
    pub open: Seq<char>,
    pub close: Seq<char>,
}

impl View for Delim {
    type V = DelimView;

    open spec fn view(&self) -> DelimView {
        DelimView { open: self.open@, close: self.close@ }
    }
}

impl DeepView for Delim {
    type V = DelimView;

    open spec fn deep_view(&self) -> DelimView {
        self@
    }
}

impl Delim {
    /// A copy of the pair.
    pub fn duplicate(&self) -> (copy: Delim)
        ensures
            copy@ == self@,
    {
        Delim { open: self.open.clone(), close: self.close.clone() }
    }
}

/// The delimiter pairs that bracket spans in model output and prompts.
#[derive(Clone, Debug, PartialEq, Eq)]
pub struct DelimConfig {
    pub reasoning: Option<Delim>,
    pub available_tools: Delim,
    pub tool_call: Delim,
}

/// The mathematical content of a [`DelimConfig`].
pub struct DelimConfigView {
    pub reasoning: Option<DelimView>,
    pub available_tools: DelimView,
    pub tool_call: DelimView,
}

impl View for DelimConfig {
    type V = DelimConfigView;

    open spec fn view(&self) -> DelimConfigView {
        DelimConfigView {
            reasoning: self.reasoning.deep_view(),
            available_tools: self.available_tools@,
            tool_call: self.tool_call@,
        }
    }
}

impl DeepView for DelimConfig {
    type V = DelimConfigView;

    open spec fn deep_view(&self) -> DelimConfigView {
        self@
    }
}

/// The settings of a run.
#[derive(Clone, Debug, PartialEq, Eq)]
pub struct Config {
    pub base_url: String,
    pub api_key: Option<String>,
    pub model: String,
    pub temperature: Option<Numeral>,
    pub top_p: Option<Numeral>,
    pub delims: DelimConfig,
    pub char_limit: u64,
}

/// The mathematical content of a [`Config`].
pub struct ConfigView {
    pub base_url: Seq<char>,
    pub api_key: Option<Seq<char>>,
    pub model: Seq<char>,
    pub temperature: Option<NumeralView>,
    pub top_p: Option<NumeralView>,
    pub delims: DelimConfigView,
    pub char_limit: u64,
}

impl View for Config {
    type V = ConfigView;

    open spec fn view(&self) -> ConfigView {
        ConfigView {
            base_url: self.base_url@,
            api_key: self.api_key.deep_view(),
            model: self.model@,
            temperature: self.temperature.deep_view(),
            top_p: self.top_p.deep_view(),
            delims: self.delims@,
            char_limit: self.char_limit,
        }
    }
}

impl DeepView for Config {
    type V = ConfigView;

    open spec fn deep_view(&self) -> ConfigView {
        self@
    }
}

/// A field of the configuration.
#[derive(Clone, Copy, Debug, PartialEq, Eq)]
pub enum Field {
    BaseUrl,
    ApiKey,
    Model,
    Temperature,
    TopP,
    Delims,
    Reasoning,
    AvailableTools,
    ToolCall,
    CharLimit,
}

impl Field {
    /// The key under which the field stands in its JSON object.
    pub open spec fn key(self) -> Seq<char> {
        match self {
            Field::BaseUrl => "base_url"@,
            Field::ApiKey => "api_key"@,
            Field::Model => "model"@,
            Field::Temperature => "temperature"@,
            Field::TopP => "top_p"@,
            Field::Delims => "delims"@,
            Field::Reasoning => "reasoning"@,
            Field::AvailableTools => "available_tools"@,
            Field::ToolCall => "tool_call"@,
            Field::CharLimit => "char_limit"@,
        }
    }

    /// The key under which the field stands in its JSON object.
    pub fn name(self) -> (name: &'static str)
        ensures
            name@ == self.key(),
    {
        match self {
            Field::BaseUrl => "base_url",
            Field::ApiKey => "api_key",
            Field::Model => "model",
            Field::Temperature => "temperature",
            Field::TopP => "top_p",
            Field::Delims => "delims",
            Field::Reasoning => "reasoning",
            Field::AvailableTools => "available_tools",
            Field::ToolCall => "tool_call",
            Field::CharLimit => "char_limit",
        }
    }
}

/// Why a configuration was refused.
#[derive(Clone, Debug, PartialEq, Eq)]
pub enum ConfigError {
    /// The text is not JSON; the parser's message is enclosed.
    Malformed(String),
    /// The document is not a JSON object.
    NotAnObject,
    /// A required field is absent.
    Missing(Field),
    /// A field holds a value of the wrong kind.
    Invalid(Field),
}

/// The mathematical content of a [`ConfigError`].
pub enum ConfigErrorView {
    Malformed(Seq<char>),
    NotAnObject,
    Missing(Field),
    Invalid(Field),
}

impl View for ConfigError {
    type V = ConfigErrorView;

    open spec fn view(&self) -> ConfigErrorView {
        match self {
            ConfigError::Malformed(message) => ConfigErrorView::Malformed(message@),
            ConfigError::NotAnObject => ConfigErrorView::NotAnObject,
            ConfigError::Missing(field) => ConfigErrorView::Missing(*field),
            ConfigError::Invalid(field) => ConfigErrorView::Invalid(*field),
        }
    }
}

impl ConfigErrorView {
    /// The failure message that stands for the error.
    pub open spec fn message(self) -> Seq<char> {
        match self {
            ConfigErrorView::Malformed(message) => message,
            ConfigErrorView::NotAnObject => "configuration is not a JSON object"@,
            ConfigErrorView::Missing(field) => "missing field `"@ + field.key() + "`"@,
            ConfigErrorView::Invalid(field) => "invalid value for field `"@ + field.key() + "`"@,
        }
    }
}

impl ConfigError {
    /// The failure message that stands for the error.
    pub fn message(&self) -> (message: String)
        ensures
            message@ == self@.message(),
    {
        match self {
            ConfigError::Malformed(message) => message.clone(),
            ConfigError::NotAnObject => String::from_str("configuration is not a JSON object"),
            ConfigError::Missing(field) => {
                let mut message = String::from_str("missing field `");
                message.append(field.name());
                message.append("`");
                message
            },
            ConfigError::Invalid(field) => {
                let mut message = String::from_str("invalid value for field `");
                message.append(field.name());
                message.append("`");
                message
            },
        }
    }
}

/// The outcome of a shape check, as mathematical values.
pub type Checked<T> = Result<T, ConfigErrorView>;

/// A required text: the member must be there and be a JSON string.
pub open spec fn required_text(found: Option<JsonView>, field: Field) -> Checked<Seq<char>> {
    match found {
        None => Err(ConfigErrorView::Missing(field)),
        Some(JsonView::Text(text)) => Ok(text),
        Some(_) => Err(ConfigErrorView::Invalid(field)),
    }
}

/// An optional text: the member may be absent or null, else it must be a
/// JSON string.
pub open spec fn optional_text(found: Option<JsonView>, field: Field) -> Checked<Option<Seq<char>>> {
    match found {
        None => Ok(None),
        Some(JsonView::Null) => Ok(None),
        Some(JsonView::Text(text)) => Ok(Some(text)),
        Some(_) => Err(ConfigErrorView::Invalid(field)),
    }
}

/// An optional number: the member may be absent or null, else it must be a
/// JSON number.
pub open spec fn optional_number(found: Option<JsonView>, field: Field) -> Checked<Option<NumeralView>> {
    match found {
        None => Ok(None),
        Some(JsonView::Null) => Ok(None),
        Some(JsonView::Number(number)) => Ok(Some(number)),
        Some(_) => Err(ConfigErrorView::Invalid(field)),
    }
}

/// A required count: the member must be there and be a JSON number that is
/// an unsigned 64-bit integer.
pub open spec fn required_count(found: Option<JsonView>, field: Field) -> Checked<u64> {
    match found {
        None => Err(ConfigErrorView::Missing(field)),
        Some(JsonView::Number(number)) => match number.unsigned {
            Some(count) => Ok(count),
            None => Err(ConfigErrorView::Invalid(field)),
        },
        Some(_) => Err(ConfigErrorView::Invalid(field)),
    }
}

/// The pair of texts that a document spells: a JSON array of exactly two
/// JSON strings.
pub open spec fn pair_of(value: JsonView) -> Option<DelimView> {
    match value {
        JsonView::List(items) => if items.len() == 2 {
            match (items[0], items[1]) {
                (JsonView::Text(open), JsonView::Text(close)) => Some(DelimView { open, close }),
                _ => None,
            }
        } else {
            None
        },
        _ => None,
    }
}

/// A required pair: the member must be there and spell a pair.
pub open spec fn required_pair(found: Option<JsonView>, field: Field) -> Checked<DelimView> {
    match found {
        None => Err(ConfigErrorView::Missing(field)),
        Some(value) => match pair_of(value) {
            Some(pair) => Ok(pair),
            None => Err(ConfigErrorView::Invalid(field)),
        },
    }
}

/// An optional pair: the member may be absent or null, else it must spell a
/// pair.
pub open spec fn optional_pair(found: Option<JsonView>, field: Field) -> Checked<Option<DelimView>> {
    match found {
        None => Ok(None),
        Some(JsonView::Null) => Ok(None),
        Some(value) => match pair_of(value) {
            Some(pair) => Ok(Some(pair)),
            None => Err(ConfigErrorView::Invalid(field)),
        },
    }
}

/// The delimiter configuration that the members of a JSON object spell. Of
/// several faults the one of the first field, in the order `reasoning`,
/// `available_tools`, `tool_call`, is reported.
pub open spec fn delims_of(members: Seq<(Seq<char>, JsonView)>) -> Checked<DelimConfigView> {
    match optional_pair(member(members, Field::Reasoning.key()), Field::Reasoning) {
        Err(error) => Err(error),
        Ok(reasoning) => match required_pair(
            member(members, Field::AvailableTools.key()),
            Field::AvailableTools,
        ) {
            Err(error) => Err(error),
            Ok(available_tools) => match required_pair(
                member(members, Field::ToolCall.key()),
                Field::ToolCall,
            ) {
                Err(error) => Err(error),
                Ok(tool_call) => Ok(DelimConfigView { reasoning, available_tools, tool_call }),
            },
        },
    }
}

/// The delimiter configuration under the key `delims`: the member must be
/// there and be a JSON object of that shape.
pub open spec fn required_delims(found: Option<JsonView>) -> Checked<DelimConfigView> {
    match found {
        None => Err(ConfigErrorView::Missing(Field::Delims)),
        Some(JsonView::Object(members)) => delims_of(members),
        Some(_) => Err(ConfigErrorView::Invalid(Field::Delims)),
    }
}

/// The settings that the members of a JSON object spell. Of several faults
/// the one of the first field, in the order of the fields of [`Config`], is
/// reported. Members under other keys are ignored.
pub open spec fn settings_of(members: Seq<(Seq<char>, JsonView)>) -> Checked<ConfigView> {
    match required_text(member(members, Field::BaseUrl.key()), Field::BaseUrl) {
        Err(error) => Err(error),
        Ok(base_url) => match optional_text(member(members, Field::ApiKey.key()), Field::ApiKey) {
            Err(error) => Err(error),
            Ok(api_key) => match required_text(member(members, Field::Model.key()), Field::Model) {
                Err(error) => Err(error),
                Ok(model) => match optional_number(
                    member(members, Field::Temperature.key()),
                    Field::Temperature,
                ) {
                    Err(error) => Err(error),
                    Ok(temperature) => match optional_number(
                        member(members, Field::TopP.key()),
                        Field::TopP,
                    ) {
                        Err(error) => Err(error),
                        Ok(top_p) => match required_delims(member(members, Field::Delims.key())) {
                            Err(error) => Err(error),
                            Ok(delims) => match required_count(
                                member(members, Field::CharLimit.key()),
                                Field::CharLimit,
                            ) {
                                Err(error) => Err(error),
                                Ok(char_limit) => Ok(
                                    ConfigView {
                                        base_url,
                                        api_key,
                                        model,
                                        temperature,
                                        top_p,
                                        delims,
                                        char_limit,
                                    },
                                ),
                            },
                        },
                    },
                },
            },
        },
    }
}

/// The settings that a JSON document spells: it must be an object.
pub open spec fn config_of(document: JsonView) -> Checked<ConfigView> {
    match document {
        JsonView::Object(members) => settings_of(members),
        _ => Err(ConfigErrorView::NotAnObject),
    }
}

/// The outcome of a shape check as mathematical values.
pub open spec fn checked_view<T: DeepView>(outcome: Result<T, ConfigError>) -> Checked<T::V> {
    match outcome {
        Ok(value) => Ok(value.deep_view()),
        Err(error) => Err(error@),
    }
}

fn text_at(members: &Vec<(String, Json)>, field: Field) -> (outcome: Result<String, ConfigError>)
    ensures
        checked_view(outcome) == required_text(member(members_view(members@), field.key()), field),
{
    match find_member(members, field.name()) {
        None => Err(ConfigError::Missing(field)),
        Some(Json::Text(text)) => Ok(text.clone()),
        Some(_) => Err(ConfigError::Invalid(field)),
    }
}

fn optional_text_at(members: &Vec<(String, Json)>, field: Field) -> (outcome: Result<
    Option<String>,
    ConfigError,
>)
    ensures
        checked_view(outcome) == optional_text(member(members_view(members@), field.key()), field),
{
    match find_member(members, field.name()) {
        None => Ok(None),
        Some(Json::Null) => Ok(None),
        Some(Json::Text(text)) => Ok(Some(text.clone())),
        Some(_) => Err(ConfigError::Invalid(field)),
    }
}

fn optional_number_at(members: &Vec<(String, Json)>, field: Field) -> (outcome: Result<
    Option<Numeral>,
    ConfigError,
>)
    ensures
        checked_view(outcome) == optional_number(member(members_view(members@), field.key()), field),
{
    match find_member(members, field.name()) {
        None => Ok(None),
        Some(Json::Null) => Ok(None),
        Some(Json::Number(number)) => Ok(
            Some(Numeral { unsigned: number.unsigned, literal: number.literal.clone() }),
        ),
        Some(_) => Err(ConfigError::Invalid(field)),
    }
}

fn count_at(members: &Vec<(String, Json)>, field: Field) -> (outcome: Result<u64, ConfigError>)
    ensures
        checked_view(outcome) == required_count(member(members_view(members@), field.key()), field),
{
    match find_member(members, field.name()) {
        None => Err(ConfigError::Missing(field)),
        Some(Json::Number(number)) => match number.unsigned {
            Some(count) => Ok(count),
            None => Err(ConfigError::Invalid(field)),
        },
        Some(_) => Err(ConfigError::Invalid(field)),
    }
}

fn pair_from(value: &Json) -> (pair: Option<Delim>)
    ensures
        pair.deep_view() == pair_of(value@),
{
    match value {
        Json::List(items) => {
            proof {
                lemma_items_view(items@);
            }
            if items.len() == 2 {
                match (&items[0], &items[1]) {
                    (Json::Text(open), Json::Text(close)) => Some(
                        Delim { open: open.clone(), close: close.clone() },
                    ),
                    _ => None,
                }
            } else {
                None
            }
        },
        _ => None,
    }
}

fn pair_at(members: &Vec<(String, Json)>, field: Field) -> (outcome: Result<Delim, ConfigError>)
    ensures
        checked_view(outcome) == required_pair(member(members_view(members@), field.key()), field),
{
    match find_member(members, field.name()) {
        None => Err(ConfigError::Missing(field)),
        Some(value) => match pair_from(value) {
            Some(pair) => Ok(pair),
            None => Err(ConfigError::Invalid(field)),
        },
    }
}

fn optional_pair_at(members: &Vec<(String, Json)>, field: Field) -> (outcome: Result<
    Option<Delim>,
    ConfigError,
>)
    ensures
        checked_view(outcome) == optional_pair(member(members_view(members@), field.key()), field),
{
    match find_member(members, field.name()) {
        None => Ok(None),
        Some(Json::Null) => Ok(None),
        Some(value) => match pair_from(value) {
            Some(pair) => Ok(Some(pair)),
            None => Err(ConfigError::Invalid(field)),
        },
    }
}

fn delims_from(members: &Vec<(String, Json)>) -> (outcome: Result<DelimConfig, ConfigError>)
    ensures
        checked_view(outcome) == delims_of(members_view(members@)),
{
    let reasoning = match optional_pair_at(members, Field::Reasoning) {
        Ok(reasoning) => reasoning,
        Err(error) => return Err(error),
    };
    let available_tools = match pair_at(members, Field::AvailableTools) {
        Ok(available_tools) => available_tools,
        Err(error) => return Err(error),
    };
    let tool_call = match pair_at(members, Field::ToolCall) {
        Ok(tool_call) => tool_call,
        Err(error) => return Err(error),
    };
    Ok(DelimConfig { reasoning, available_tools, tool_call })
}

fn delims_at(members: &Vec<(String, Json)>) -> (outcome: Result<DelimConfig, ConfigError>)
    ensures
        checked_view(outcome) == required_delims(member(members_view(members@), Field::Delims.key())),
{
    match find_member(members, Field::Delims.name()) {
        None => Err(ConfigError::Missing(Field::Delims)),
        Some(Json::Object(inner)) => delims_from(inner),
        Some(_) => Err(ConfigError::Invalid(Field::Delims)),
    }
}

fn settings_from(members: &Vec<(String, Json)>) -> (outcome: Result<Config, ConfigError>)
    ensures
        checked_view(outcome) == settings_of(members_view(members@)),
{
    let base_url = match text_at(members, Field::BaseUrl) {
        Ok(base_url) => base_url,
        Err(error) => return Err(error),
    };
    let api_key = match optional_text_at(members, Field::ApiKey) {
        Ok(api_key) => api_key,
        Err(error) => return Err(error),
    };
    let model = match text_at(members, Field::Model) {
        Ok(model) => model,
        Err(error) => return Err(error),
    };
    let temperature = match optional_number_at(members, Field::Temperature) {
        Ok(temperature) => temperature,
        Err(error) => return Err(error),
    };
    let top_p = match optional_number_at(members, Field::TopP) {
        Ok(top_p) => top_p,
        Err(error) => return Err(error),
    };
    let delims = match delims_at(members) {
        Ok(delims) => delims,
        Err(error) => return Err(error),
    };
    let char_limit = match count_at(members, Field::CharLimit) {
        Ok(char_limit) => char_limit,
        Err(error) => return Err(error),
    };
    Ok(Config { base_url, api_key, model, temperature, top_p, delims, char_limit })
}

/// Checks that a JSON document has the shape of a configuration, and reads
/// the settings from it.
pub fn shape(document: &Json) -> (outcome: Result<Config, ConfigError>)
    ensures
        checked_view(outcome) == config_of(document@),
{
    match document {
        Json::Object(members) => settings_from(members),
        _ => Err(ConfigError::NotAnObject),
    }
}

/// Reads the settings from a text: it must be JSON, and the document it
/// spells must have the shape of a configuration. A text that is not JSON is
/// refused as malformed, with the parser's message.
pub fn load(text: &str) -> (outcome: Result<Config, ConfigError>)
    ensures
        match document_of(text@) {
            Some(document) => checked_view(outcome) == config_of(document),
            None => outcome matches Err(ConfigError::Malformed(_)),
        },
{
    match read_document(text) {
        Ok(document) => shape(&document),
        Err(error) => Err(ConfigError::Malformed(error.to_string())),
    }
}

} // verus!
