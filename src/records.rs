//! Records of the management service: tenants and sinks.
use vstd::prelude::*;

verus! {

#[derive(Clone, Debug)]
pub struct Tenant {
    pub id: String,
    pub name: String,
}

/// A secret encrypted with the key `id`.
#[derive(Clone, Debug, PartialEq, Eq)]
pub struct EncryptedValue {
    pub id: u32,
    pub nonce: String,
    pub value: String,
}

/// Where a pipeline delivers; credentials in clear.
#[derive(Clone, PartialEq, Eq)]
pub enum SinkConfig {
    BigQuery {
        /// BigQuery project id
        project_id: String,
        /// BigQuery dataset id
        dataset_id: String,
        /// BigQuery service account key
        service_account_key: String,
    },
}

/// A sink configuration as stored, with the service account key encrypted.
#[derive(Clone, Debug, PartialEq, Eq)]
pub enum SinkConfigInDb {
    BigQuery {
        /// BigQuery project id
        project_id: String,
        /// BigQuery dataset id
        dataset_id: String,
        /// BigQuery service account key
        service_account_key: EncryptedValue,
    },
}

#[derive(Clone)]
pub struct Sink {
    pub id: i64,
    pub tenant_id: String,
    pub name: String,
    pub config: SinkConfig,
}

} // verus!
