use vstd::prelude::*;

verus! {

/// Copies an optional string.
pub fn clone_opt_string(value: &Option<String>) -> (copy: Option<String>)
    ensures
        copy == *value,
{
    match value {
        Some(text) => Some(text.clone()),
        None => None,
    }
}

/// Where a document comes from inside its backend.
#[derive(Debug, PartialEq, Eq)]
pub struct DataSourceReference {
    pub kind: Option<String>,
    pub name: Option<String>,
    pub id: Option<String>,
    pub icon: Option<String>,
}

impl Clone for DataSourceReference {
    fn clone(&self) -> (copy: Self)
        ensures
            copy == *self,
    {
        DataSourceReference {
            kind: clone_opt_string(&self.kind),
            name: clone_opt_string(&self.name),
            id: clone_opt_string(&self.id),
            icon: clone_opt_string(&self.icon),
        }
    }
}

/// A record that a backend returns. Two documents with the same `id` are the
/// same logical document, whichever backend produced them.
#[derive(Debug, PartialEq, Eq)]
pub struct Document {
    pub id: String,
    pub source: Option<DataSourceReference>,
    pub category: Option<String>,
    pub title: Option<String>,
    pub url: Option<String>,
    pub icon: Option<String>,
    /// The backend's own payload, as JSON text.
    pub payload: Option<String>,
}

impl Document {
    /// A document that has only an id.
    pub fn with_id(id: String) -> (doc: Document)
        ensures
            doc.id == id,
            doc.source.is_none(),
            doc.category.is_none(),
            doc.title.is_none(),
            doc.url.is_none(),
            doc.icon.is_none(),
            doc.payload.is_none(),
    {
        Document {
            id,
            source: None,
            category: None,
            title: None,
            url: None,
            icon: None,
            payload: None,
        }
    }
}

impl Clone for Document {
    fn clone(&self) -> (copy: Self)
        ensures
            copy == *self,
    {
        let source = match &self.source {
            Some(reference) => Some(reference.clone()),
            None => None,
        };
        Document {
            id: self.id.clone(),
            source,
            category: clone_opt_string(&self.category),
            title: clone_opt_string(&self.title),
            url: clone_opt_string(&self.url),
            icon: clone_opt_string(&self.icon),
            payload: clone_opt_string(&self.payload),
        }
    }
}

} // verus!
