//! Configuration resolution and image naming for cross-compiling in containers.
mod cross_toml;
mod decode;
mod docker;
mod encode;
mod order;
mod target;
mod toml_value;

pub use cross_toml::{
    CrossBuildConfig, CrossEnvConfig, CrossTargetConfig, CrossTargetDockerfileConfig, CrossToml,
};
pub use docker::{CargoMetadata, Dockerfile, ImageError, CROSS_CUSTOM_DOCKERFILE_IMAGE_PREFIX};
pub use target::{Target, TargetList};
pub use toml_value::{ConfigError, TomlValue};
