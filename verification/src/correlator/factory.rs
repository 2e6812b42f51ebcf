//! Making a correlator from a configuration file.

use vstd::prelude::*;
use vstd::string::StrSliceExecFns;
use crate::conditions::ConditionsModel;
use crate::config::action::actions_compiled;
use crate::config::decode::{contexts_from_json, contexts_from_yaml, contexts_in};
use crate::config::document::{json_document, yaml_document};
use crate::config::{
    compile_configs, config_models, configs_compiled, configs_failure, ContextConfig,
    ContextConfigModel,
};
use crate::context::context_map::ContextMap;
use crate::context::linear::LinearContextModel;
use crate::correlator::{Correlator, CorrelatorError, CorrelatorFailure};
use crate::dispatcher::Response;
use crate::state::StateModel;
use crate::support::text_eq;
use crate::template::{Template, TemplateFactory};

verus! {

/// What is known of the extension of the name of a configuration file.
#[derive(Debug)]
pub enum FileExtension {
    /// The name has no extension.
    Missing,
    /// The extension is not UTF-8.
    NotUtf8,
    /// The extension, without the dot.
    Text(String),
}

/// The formats in which a configuration can be written.
#[derive(Clone, Copy, Debug, PartialEq, Eq, Structural)]
pub enum ConfigFormat {
    Json,
    Yaml,
}

/// Whether the extension is `yaml` or `yml`, in any mix of upper and lower
/// case.
pub open spec fn is_yaml_extension(extension: Seq<char>) -> bool {
    ||| extension.len() == 4 && (extension[0] == 'y' || extension[0] == 'Y') && (extension[1]
        == 'a' || extension[1] == 'A') && (extension[2] == 'm' || extension[2] == 'M') && (
    extension[3] == 'l' || extension[3] == 'L')
    ||| extension.len() == 3 && (extension[0] == 'y' || extension[0] == 'Y') && (extension[1]
        == 'm' || extension[1] == 'M') && (extension[2] == 'l' || extension[2] == 'L')
}

/// The format that the extension of a file name selects: `json` selects
/// JSON, `yaml` and `yml` in any case select YAML.
pub open spec fn format_for(extension: FileExtension) -> Result<ConfigFormat, CorrelatorFailure> {
    match extension {
        FileExtension::Missing => Err(CorrelatorFailure::UnsupportedFileExtension),
        FileExtension::NotUtf8 => Err(CorrelatorFailure::NotUtf8FileName),
        FileExtension::Text(text) => if text@ == "json"@ {
            Ok(ConfigFormat::Json)
        } else if is_yaml_extension(text@) {
            Ok(ConfigFormat::Yaml)
        } else {
            Err(CorrelatorFailure::UnsupportedFileExtension)
        },
    }
}

/// The configurations that a file holds, given the extension of its name
/// and what reading it gave. The extension is looked at first.
pub open spec fn loaded<T: Template>(extension: FileExtension, read: Result<String, std::io::Error>)
    -> Result<Seq<ContextConfigModel<T>>, CorrelatorFailure> {
    match format_for(extension) {
        Err(error) => Err(error),
        Ok(format) => match read {
            Err(_) => Err(CorrelatorFailure::Io),
            Ok(content) => match format {
                ConfigFormat::Json => match contexts_in::<T>(json_document(content@)) {
                    Ok(configs) => Ok(configs),
                    Err(error) => Err(CorrelatorFailure::SerdeJson(error)),
                },
                ConfigFormat::Yaml => match contexts_in::<T>(yaml_document(content@)) {
                    Ok(configs) => Ok(configs),
                    Err(error) => Err(CorrelatorFailure::SerdeYaml(error)),
                },
            },
        },
    }
}

/// Whether `context` is the closed context that `config` describes, with
/// the strings of its actions compiled.
pub open spec fn context_built<F: TemplateFactory>(
    factory: F,
    config: ContextConfigModel<F::Template>,
    context: LinearContextModel<F::Template>,
) -> bool {
    &&& context.state == StateModel::<<F::Template as Template>::Event>::fresh()
    &&& context.base.name == config.name
    &&& context.base.uuid == config.uuid
    &&& context.base.conditions == (ConditionsModel { patterns: config.patterns, ..config.conditions })
    &&& actions_compiled(factory, config.actions, context.base.actions)
}

/// Whether the contexts are those that the configurations describe, in
/// their order.
pub open spec fn contexts_built<F: TemplateFactory>(
    factory: F,
    configs: Seq<ContextConfigModel<F::Template>>,
    contexts: Seq<LinearContextModel<F::Template>>,
) -> bool {
    &&& contexts.len() == configs.len()
    &&& forall|i: int|
        0 <= i < configs.len() ==> context_built(factory, configs[i], #[trigger] contexts[i])
}

/// Makes correlators from configuration files.
pub struct CorrelatorFactory;

impl CorrelatorFactory {
    /// Whether the extension is `yaml` or `yml` in any case.
    fn is_yaml(extension: &str) -> (yaml: bool)
        ensures
            yaml == is_yaml_extension(extension@),
    {
        let length = extension.unicode_len();
        if length == 4 {
            let y = extension.get_char(0);
            let a = extension.get_char(1);
            let m = extension.get_char(2);
            let l = extension.get_char(3);
            (y == 'y' || y == 'Y') && (a == 'a' || a == 'A') && (m == 'm' || m == 'M') && (l == 'l'
                || l == 'L')
        } else if length == 3 {
            let y = extension.get_char(0);
            let m = extension.get_char(1);
            let l = extension.get_char(2);
            (y == 'y' || y == 'Y') && (m == 'm' || m == 'M') && (l == 'l' || l == 'L')
        } else {
            false
        }
    }

    /// The format that the extension of a file name selects.
    pub fn format_of(extension: &FileExtension) -> (result: Result<ConfigFormat, CorrelatorError>)
        ensures
            result is Ok ==> format_for(*extension) == Ok::<ConfigFormat, CorrelatorFailure>(result->Ok_0),
            result is Err ==> format_for(*extension) == Err::<ConfigFormat, CorrelatorFailure>(
                result->Err_0@,
            ),
    {
        match extension {
            FileExtension::Missing => Err(CorrelatorError::UnsupportedFileExtension),
            FileExtension::NotUtf8 => Err(CorrelatorError::NotUtf8FileName),
            FileExtension::Text(text) => {
                if text_eq(text.as_str(), "json") {
                    Ok(ConfigFormat::Json)
                } else if Self::is_yaml(text.as_str()) {
                    Ok(ConfigFormat::Yaml)
                } else {
                    Err(CorrelatorError::UnsupportedFileExtension)
                }
            },
        }
    }

    /// Reads the configurations out of the text of a file. `extension` is
    /// that of the file's name and `read` is what reading the file gave.
    pub fn load_file<T: Template>(extension: &FileExtension, read: Result<String, std::io::Error>)
        -> (result: Result<Vec<ContextConfig<T>>, CorrelatorError>)
        ensures
            result is Ok ==> loaded::<T>(*extension, read) == Ok::<
                Seq<ContextConfigModel<T>>,
                CorrelatorFailure,
            >(config_models(result->Ok_0@)),
            result is Err ==> loaded::<T>(*extension, read) == Err::<
                Seq<ContextConfigModel<T>>,
                CorrelatorFailure,
            >(result->Err_0@),
    {
        let format = match Self::format_of(extension) {
            Ok(format) => format,
            Err(error) => {
                return Err(error);
            },
        };
        let content = match read {
            Ok(content) => content,
            Err(error) => {
                return Err(CorrelatorError::Io(error));
            },
        };
        match format {
            ConfigFormat::Json => match contexts_from_json::<T>(content.as_str()) {
                Ok(configs) => Ok(configs),
                Err(error) => Err(CorrelatorError::SerdeJson(error)),
            },
            ConfigFormat::Yaml => match contexts_from_yaml::<T>(content.as_str()) {
                Ok(configs) => Ok(configs),
                Err(error) => Err(CorrelatorError::SerdeYaml(error)),
            },
        }
    }

    /// Builds the contexts that a configuration file describes: reads the
    /// configurations out of its text, compiles every string of every
    /// action with `template_factory`, and builds the contexts, all closed.
    /// `extension` is that of the file's name and `read` is what reading
    /// the file gave.
    pub fn context_map<F: TemplateFactory>(
        extension: &FileExtension,
        read: Result<String, std::io::Error>,
        template_factory: &F,
    ) -> (result: Result<ContextMap<F::Template>, CorrelatorError>)
        ensures
            match loaded::<F::Template>(*extension, read) {
                Err(error) => result is Err && result->Err_0@ == error,
                Ok(configs) => match configs_failure(*template_factory, configs) {
                    Some(text) => result is Err && result->Err_0@
                        == CorrelatorFailure::TemplateCompile(text),
                    None => result is Ok && result->Ok_0.wf() && contexts_built(
                        *template_factory,
                        configs,
                        result->Ok_0@,
                    ),
                },
            },
    {
        let contexts = match Self::load_file::<F::Template>(extension, read) {
            Ok(contexts) => contexts,
            Err(error) => {
                return Err(error);
            },
        };
        let ghost configs = config_models(contexts@);
        let compiled = match compile_configs(template_factory, contexts) {
            Ok(compiled) => compiled,
            Err(error) => {
                return Err(CorrelatorError::TemplateCompile(error));
            },
        };
        let map = ContextMap::from_configs(compiled);
        proof {
            let built = map@;
            let after = config_models(compiled@);
            assert forall|i: int| 0 <= i < configs.len() implies context_built(
                *template_factory,
                configs[i],
                #[trigger] built[i],
            ) by {
                assert(built[i] == after[i].context());
            }
        }
        Ok(map)
    }

    /// Makes a correlator from a configuration file, with the contexts that
    /// the file describes and nothing emitted. `extension` is that of the
    /// file's name and `read` is what reading the file gave.
    pub fn from_path<F: TemplateFactory>(
        extension: &FileExtension,
        read: Result<String, std::io::Error>,
        template_factory: &F,
    ) -> (result: Result<Correlator<F::Template>, CorrelatorError>)
        ensures
            match loaded::<F::Template>(*extension, read) {
                Err(error) => result is Err && result->Err_0@ == error,
                Ok(configs) => match configs_failure(*template_factory, configs) {
                    Some(text) => result is Err && result->Err_0@
                        == CorrelatorFailure::TemplateCompile(text),
                    None => result is Ok && result->Ok_0.wf() && !result->Ok_0@.stopped
                        && result->Ok_0@.responses == Seq::<
                        Response<<F::Template as Template>::Event>,
                    >::empty() && contexts_built(
                        *template_factory,
                        configs,
                        result->Ok_0@.contexts,
                    ),
                },
            },
    {
        match Self::context_map(extension, read, template_factory) {
            Ok(map) => Ok(Correlator::new(map)),
            Err(error) => Err(error),
        }
    }
}

} // verus!
