//! Writes of user configuration values.

use vstd::prelude::*;

verus! {

/// What becomes of the value that was there.
#[derive(Clone, Copy, Debug, PartialEq, Eq, Structural)]
pub enum MergeStrategy {
    Replace,
}

/// A write of one text value.
#[derive(Debug, PartialEq, Eq)]
pub struct ConfigValueWriteParams {
    pub key_path: String,
    pub value: String,
    pub merge_strategy: MergeStrategy,
    pub file_path: Option<String>,
    pub expected_version: Option<String>,
}

pub struct WriteModel {
    pub key_path: Seq<char>,
    pub value: Seq<char>,
    pub merge_strategy: MergeStrategy,
    pub file_path: Option<Seq<char>>,
    pub expected_version: Option<Seq<char>>,
}

impl DeepView for ConfigValueWriteParams {
    type V = WriteModel;

    open spec fn deep_view(&self) -> WriteModel {
        WriteModel {
            key_path: self.key_path@,
            value: self.value@,
            merge_strategy: self.merge_strategy,
            file_path: self.file_path.deep_view(),
            expected_version: self.expected_version.deep_view(),
        }
    }
}

/// The write that makes `provider` the model provider of the user.
pub open spec fn provider_write(
    provider: Seq<char>,
    expected_version: Option<Seq<char>>,
) -> WriteModel {
    WriteModel {
        key_path: "model_provider"@,
        value: provider,
        merge_strategy: MergeStrategy::Replace,
        file_path: None,
        expected_version,
    }
}

/// The write that makes `value` the model provider of the user.
pub fn write_user_model_provider(value: String, expected_version: Option<String>) -> (params:
    ConfigValueWriteParams)
    ensures
        params.deep_view() == provider_write(value@, expected_version.deep_view()),
{
    ConfigValueWriteParams {
        key_path: "model_provider".to_string(),
        value,
        merge_strategy: MergeStrategy::Replace,
        file_path: None,
        expected_version,
    }
}

/// The write that makes Amazon Bedrock, whose id is given, the model provider of
/// the user, whatever version the configuration has.
pub fn set_user_model_provider_to_bedrock(bedrock_provider_id: &str) -> (params:
    ConfigValueWriteParams)
    ensures
        params.deep_view() == provider_write(bedrock_provider_id@, None),
{
    write_user_model_provider(bedrock_provider_id.to_string(), None)
}

}
