//! The `set-metadata` rule: renders declared key-value metadata into one
//! JSON-style byte string on the circuit builder.
//!
//! The rendering follows one fixed textual format: the
//! text opens with `{[`, each entry becomes `"key":"value",` (a list value
//! becomes `"key":[...],` in debug-list form), the last character written
//! is dropped, and `]}` closes the text.

use vstd::prelude::*;
use vstd::string::*;

use crate::args::{get_argument_value, spec_resolve, ArgV, Resolution, RuleArgument};
use crate::create_services::{spec_resolve_list, ArgValue, ValueV};
use crate::errors::CircuitTemplateError;
use crate::messages::{CircuitBuilderV, CreateCircuitBuilder};
use crate::text::{
    debug_list, push_char, quote, spec_debug_list, spec_quoted, str_chars, string_from_chars,
};
use crate::yaml::{spec_map_get, NodeV, YamlNode};

verus! {

/// One declared metadata entry: a key and a value.
#[derive(Debug)]
pub struct JsonMetadata {
    key: String,
    value: ArgValue,
}

impl View for JsonMetadata {
    type V = (Seq<char>, ValueV);

    closed spec fn view(&self) -> (Seq<char>, ValueV) {
        (self.key@, self.value@)
    }
}

impl DeepView for JsonMetadata {
    type V = (Seq<char>, ValueV);

    open spec fn deep_view(&self) -> (Seq<char>, ValueV) {
        self.view()
    }
}

impl JsonMetadata {
    /// A metadata entry with the given key and value.
    pub fn new(key: &str, value: ArgValue) -> (r: JsonMetadata)
        ensures
            r@ == (key@, value@),
    {
        JsonMetadata { key: String::from_str(key), value }
    }
}

/// The declared metadata, by encoding; only JSON is known.
#[derive(Debug)]
pub enum Metadata {
    Json { metadata: Vec<JsonMetadata> },
}

/// The validated `set-metadata` payload.
#[derive(Debug)]
pub struct SetMetadata {
    metadata: Metadata,
}

impl View for SetMetadata {
    type V = Seq<(Seq<char>, ValueV)>;

    closed spec fn view(&self) -> Seq<(Seq<char>, ValueV)> {
        match self.metadata {
            Metadata::Json { metadata } => metadata.deep_view(),
        }
    }
}

/// The text one resolved entry contributes: the quoted key, a colon, the
/// rendered value, and a trailing comma.
pub open spec fn spec_metadata_entry(e: (Seq<char>, ValueV), args: Seq<ArgV>) -> Result<
    Seq<char>,
    Resolution,
> {
    match e.1 {
        ValueV::Single(s) => match spec_resolve(s, args) {
            Resolution::Value(x) => Ok(
                spec_quoted(e.0) + seq![':'] + spec_quoted(x) + seq![','],
            ),
            other => Err(other),
        },
        ValueV::List(vs) => match spec_resolve_list(vs, args) {
            Ok(xs) => Ok(spec_quoted(e.0) + seq![':'] + spec_debug_list(xs) + seq![',']),
            Err(other) => Err(other),
        },
    }
}

/// The concatenated texts of all entries, or the first resolution failure.
pub open spec fn spec_metadata_body(entries: Seq<(Seq<char>, ValueV)>, args: Seq<ArgV>) -> Result<
    Seq<char>,
    Resolution,
>
    decreases entries.len(),
{
    if entries.len() == 0 {
        Ok(Seq::<char>::empty())
    } else {
        match spec_metadata_entry(entries[0], args) {
            Ok(t) => match spec_metadata_body(entries.drop_first(), args) {
                Ok(rest) => Ok(t + rest),
                Err(e) => Err(e),
            },
            Err(e) => Err(e),
        }
    }
}

/// The whole rendered metadata text: `{[`, the entries' texts with the last
/// character dropped, then `]}`.
pub open spec fn spec_metadata_string(entries: Seq<(Seq<char>, ValueV)>, args: Seq<ArgV>) -> Result<
    Seq<char>,
    Resolution,
> {
    match spec_metadata_body(entries, args) {
        Ok(body) => Ok((seq!['{', '['] + body).drop_last() + seq![']', '}']),
        Err(e) => Err(e),
    }
}

/// The `set-metadata` payload schema: a `metadata` mapping with a scalar
/// `encoding` of `json` and a `metadata` list of key-value mappings.
pub open spec fn spec_set_metadata_payload(n: NodeV) -> Option<Seq<(Seq<char>, ValueV)>> {
    match n {
        NodeV::Mapping(es) => match spec_map_get(es, "metadata"@) {
            Some(NodeV::Mapping(inner)) => match (
                spec_map_get(inner, "encoding"@),
                spec_map_get(inner, "metadata"@),
            ) {
                (Some(NodeV::Scalar(enc)), Some(NodeV::List(items))) => if enc == "json"@ {
                    crate::create_services::spec_service_args(items)
                } else {
                    None
                },
                _ => None,
            },
            _ => None,
        },
        _ => None,
    }
}

impl SetMetadata {
    /// A payload from the declared JSON metadata entries.
    pub fn new(metadata: Vec<JsonMetadata>) -> (r: SetMetadata)
        ensures
            r@ == metadata.deep_view(),
    {
        SetMetadata { metadata: Metadata::Json { metadata } }
    }

    /// Validates a `set-metadata` payload node against the rule's schema.
    /// Succeeds exactly when the payload matches
    /// [`spec_set_metadata_payload`].
    pub fn from_payload(payload: &YamlNode) -> (r: Result<SetMetadata, CircuitTemplateError>)
        ensures
            r is Ok <==> spec_set_metadata_payload(payload@) is Some,
            r matches Ok(sm) ==> spec_set_metadata_payload(payload@) == Some(sm@),
            r matches Err(e) ==> e is PayloadFormat,
    {
        let fail_msg = "set-metadata expects json metadata entries";
        let outer = match payload.get("metadata") {
            Some(n) => n,
            None => {
                return Err(CircuitTemplateError::PayloadFormat(String::from_str(fail_msg)));
            },
        };
        let enc_node = match outer.get("encoding") {
            Some(n) => n,
            None => {
                return Err(CircuitTemplateError::PayloadFormat(String::from_str(fail_msg)));
            },
        };
        let items_node = match outer.get("metadata") {
            Some(n) => n,
            None => {
                return Err(CircuitTemplateError::PayloadFormat(String::from_str(fail_msg)));
            },
        };
        let enc = match enc_node.as_scalar() {
            Some(s) => s,
            None => {
                return Err(CircuitTemplateError::PayloadFormat(String::from_str(fail_msg)));
            },
        };
        if !crate::text::str_eq(enc.as_str(), "json") {
            return Err(CircuitTemplateError::PayloadFormat(String::from_str(fail_msg)));
        }
        let items = match items_node.as_list() {
            Some(items) => items,
            None => {
                return Err(CircuitTemplateError::PayloadFormat(String::from_str(fail_msg)));
            },
        };
        let ghost iv = crate::yaml::nodes_view(items@);
        proof {
            crate::yaml::lemma_nodes_view(items@);
            assert(iv.skip(0) =~= iv);
            match crate::create_services::spec_service_args(iv) {
                Some(r) => {
                    assert(Seq::<(Seq<char>, ValueV)>::empty() + r =~= r);
                },
                None => {},
            }
        }
        let mut entries: Vec<JsonMetadata> = Vec::new();
        proof {
            assert(entries.deep_view() =~= Seq::<(Seq<char>, ValueV)>::empty());
        }
        let mut i: usize = 0;
        while i < items.len()
            invariant
                i <= items.len(),
                spec_set_metadata_payload(payload@)
                    == crate::create_services::spec_service_args(iv),
                iv == crate::yaml::nodes_view(items@),
                iv.len() == items@.len(),
                forall|j: int| 0 <= j < items@.len() ==> iv[j] == crate::yaml::node_view(
                    #[trigger] items@[j],
                ),
                crate::create_services::spec_service_args(iv) == (match
                    crate::create_services::spec_service_args(iv.skip(i as int)) {
                    Some(r) => Some(entries.deep_view() + r),
                    None => None::<Seq<(Seq<char>, ValueV)>>,
                }),
                entries.deep_view().len() == i,
            decreases items.len() - i,
        {
            let ghost pre = entries.deep_view();
            let key_node = items[i].get("key");
            let value_node = items[i].get("value");
            proof {
                assert(iv.skip(i as int)[0] == iv[i as int]);
            }
            let entry: Option<JsonMetadata> = match (key_node, value_node) {
                (Some(kn), Some(vn)) => match kn.as_scalar() {
                    Some(k) => match crate::create_services::value_from_node(vn) {
                        Some(v) => Some(JsonMetadata { key: k.clone(), value: v }),
                        None => None,
                    },
                    None => None,
                },
                _ => None,
            };
            let entry = match entry {
                Some(e) => e,
                None => {
                    proof {
                        assert(crate::create_services::spec_service_arg(iv[i as int]) is None);
                        assert(crate::create_services::spec_service_args(
                            iv.skip(i as int),
                        ) is None);
                    }
                    return Err(
                        CircuitTemplateError::PayloadFormat(String::from_str(fail_msg)),
                    );
                },
            };
            let ghost ev = entry@;
            entries.push(entry);
            proof {
                assert(crate::create_services::spec_service_arg(iv[i as int]) == Some(ev));
                assert(iv.skip(i as int).drop_first() =~= iv.skip(i as int + 1));
                assert(entries.deep_view() =~= pre.push(ev));
                match crate::create_services::spec_service_args(iv.skip(i as int + 1)) {
                    Some(r) => {
                        assert(pre + (seq![ev] + r) =~= entries.deep_view() + r);
                    },
                    None => {},
                }
            }
            i += 1;
        }
        proof {
            assert(iv.skip(items@.len() as int) =~= Seq::<NodeV>::empty());
            let dv = entries.deep_view();
            assert(dv + Seq::<(Seq<char>, ValueV)>::empty() =~= dv);
        }
        Ok(SetMetadata { metadata: Metadata::Json { metadata: entries } })
    }

    /// Applies the rule: the builder with its application metadata set to
    /// the rendered text's bytes, every other field unchanged. Fails
    /// exactly when some entry's value does not resolve.
    pub fn apply_rule(
        &self,
        builder: CreateCircuitBuilder,
        template_arguments: &Vec<RuleArgument>,
    ) -> (r: Result<CreateCircuitBuilder, CircuitTemplateError>)
        ensures
            r is Ok <==> spec_metadata_string(self@, template_arguments.deep_view()) is Ok,
            r matches Ok(b) ==> (b@ == CircuitBuilderV {
                application_metadata: Some(
                    vstd::utf8::encode_utf8(
                        spec_metadata_string(self@, template_arguments.deep_view())->Ok_0,
                    ),
                ),
                ..builder@
            }),
            r matches Err(e) ==> (e is MissingArgument || e is NoDefaultValue
                || e is MissingSignerKey),
            r matches Err(e) ==> (match spec_metadata_string(
                self@,
                template_arguments.deep_view(),
            ) {
                Ok(_) => false,
                Err(res) => {
                    &&& (e is MissingArgument <==> res is RequiredMissing)
                    &&& (e is NoDefaultValue <==> res is NoDefault)
                    &&& (e is MissingSignerKey <==> res is SignerMissing)
                },
            }),
    {
        let ghost args = template_arguments.deep_view();
        let ghost entries = self@;
        let entries_vec = match &self.metadata {
            Metadata::Json { metadata } => metadata,
        };
        proof {
            assert(entries == entries_vec.deep_view());
        }
        let mut acc = String::from_str("{[");
        proof {
            reveal_strlit("{[");
            assert(acc@ =~= seq!['{', '[']);
            assert(entries.skip(0) =~= entries);
        }
        let ghost opening: Seq<char> = seq!['{', '['];
        let mut i: usize = 0;
        while i < entries_vec.len()
            invariant
                i <= entries_vec.len(),
                args == template_arguments.deep_view(),
                entries == self@,
                entries == entries_vec.deep_view(),
                entries.len() == entries_vec.len(),
                opening == seq!['{', '['],
                spec_metadata_body(entries, args) == (match spec_metadata_body(
                    entries.skip(i as int),
                    args,
                ) {
                    Ok(rest) => Ok(acc@.skip(2) + rest),
                    Err(e) => Err::<Seq<char>, Resolution>(e),
                }),
                acc@.len() >= 2,
                acc@.take(2) == opening,
            decreases entries_vec.len() - i,
        {
            proof {
                assert(entries.skip(i as int)[0] == entries[i as int]);
                assert(entries.skip(i as int).drop_first() =~= entries.skip(i as int + 1));
                assert(entries[i as int] == entries_vec@[i as int]@);
            }
            let entry = &entries_vec[i];
            let rendered_value: String = match &entry.value {
                ArgValue::Single(v) => {
                    let resolved = match get_argument_value(v.as_str(), template_arguments) {
                        Ok(x) => x,
                        Err(e) => {
                            proof {
                                let res = spec_resolve(v@, args);
                                assert(spec_metadata_entry(entries[i as int], args) == Err::<
                                    Seq<char>,
                                    Resolution,
                                >(res));
                                assert(spec_metadata_body(entries.skip(i as int), args) == Err::<
                                    Seq<char>,
                                    Resolution,
                                >(res));
                                assert(spec_metadata_body(entries, args) == Err::<
                                    Seq<char>,
                                    Resolution,
                                >(res));
                            }
                            return Err(e);
                        },
                    };
                    quote(resolved.as_str())
                },
                ArgValue::List(vs) => {
                    let ghost vv = vs.deep_view();
                    let mut resolved_items: Vec<String> = Vec::new();
                    let mut m: usize = 0;
                    proof {
                        assert(vv.skip(0) =~= vv);
                        match spec_resolve_list(vv, args) {
                            Ok(r) => {
                                assert(resolved_items.deep_view() + r =~= r);
                                assert(resolved_items.deep_view() =~= Seq::<Seq<char>>::empty());
                            },
                            Err(_) => {},
                        }
                    }
                    while m < vs.len()
                        invariant
                            m <= vs.len(),
                            vv == vs.deep_view(),
                            vv.len() == vs.len(),
                            args == template_arguments.deep_view(),
                            entries == self@,
                            entries == entries_vec.deep_view(),
                            0 <= i < entries.len(),
                            entries[i as int].1 == ValueV::List(vv),
                            spec_metadata_body(entries, args) == (match spec_metadata_body(
                                entries.skip(i as int),
                                args,
                            ) {
                                Ok(rest) => Ok(acc@.skip(2) + rest),
                                Err(e) => Err::<Seq<char>, Resolution>(e),
                            }),
                            spec_resolve_list(vv, args) == (match spec_resolve_list(
                                vv.skip(m as int),
                                args,
                            ) {
                                Ok(r) => Ok(resolved_items.deep_view() + r),
                                Err(e) => Err::<Seq<Seq<char>>, Resolution>(e),
                            }),
                            resolved_items.deep_view().len() == m,
                        decreases vs.len() - m,
                    {
                        proof {
                            assert(vv.skip(m as int)[0] == vv[m as int]);
                            assert(vv.skip(m as int).drop_first() =~= vv.skip(m as int + 1));
                            assert(vv[m as int] == vs@[m as int]@);
                        }
                        let item = match get_argument_value(vs[m].as_str(), template_arguments) {
                            Ok(x) => x,
                            Err(e) => {
                                proof {
                                    let res = spec_resolve(vs@[m as int]@, args);
                                    assert(spec_resolve_list(vv.skip(m as int), args) == Err::<
                                        Seq<Seq<char>>,
                                        Resolution,
                                    >(res));
                                    assert(spec_resolve_list(vv, args) == Err::<
                                        Seq<Seq<char>>,
                                        Resolution,
                                    >(res));
                                    assert(spec_metadata_entry(entries[i as int], args) == Err::<
                                        Seq<char>,
                                        Resolution,
                                    >(res));
                                    assert(spec_metadata_body(entries.skip(i as int), args)
                                        == Err::<Seq<char>, Resolution>(res));
                                    assert(spec_metadata_body(entries, args) == Err::<
                                        Seq<char>,
                                        Resolution,
                                    >(res));
                                }
                                return Err(e);
                            },
                        };
                        let ghost pre = resolved_items.deep_view();
                        let ghost itemv = item@;
                        resolved_items.push(item);
                        proof {
                            assert(resolved_items.deep_view() =~= pre.push(itemv));
                            match spec_resolve_list(vv.skip(m as int + 1), args) {
                                Ok(r) => {
                                    assert(pre + (seq![itemv] + r)
                                        =~= resolved_items.deep_view() + r);
                                },
                                Err(_) => {},
                            }
                        }
                        m += 1;
                    }
                    proof {
                        assert(vv.skip(vv.len() as int) =~= Seq::<Seq<char>>::empty());
                        let dv = resolved_items.deep_view();
                        assert(dv + Seq::<Seq<char>>::empty() =~= dv);
                    }
                    debug_list(&resolved_items)
                },
            };
            let ghost prev_acc = acc@;
            let key_quoted = quote(entry.key.as_str());
            let acc2 = acc.concat(key_quoted.as_str());
            let mut acc3 = acc2;
            push_char(&mut acc3, ':');
            let acc4 = acc3.concat(rendered_value.as_str());
            let mut acc5 = acc4;
            push_char(&mut acc5, ',');
            acc = acc5;
            proof {
                let t = spec_metadata_entry(entries[i as int], args)->Ok_0;
                assert(acc@ =~= prev_acc + t);
                assert(acc@.take(2) =~= opening);
                assert(acc@.skip(2) =~= prev_acc.skip(2) + t);
                match spec_metadata_body(entries.skip(i as int + 1), args) {
                    Ok(rest) => {
                        assert(prev_acc.skip(2) + (t + rest) =~= acc@.skip(2) + rest);
                    },
                    Err(_) => {},
                }
            }
            i += 1;
        }
        proof {
            let tail = entries.skip(entries.len() as int);
            assert(tail.len() == 0);
            assert(spec_metadata_body(tail, args) == Ok::<Seq<char>, Resolution>(
                Seq::<char>::empty(),
            ));
            assert(acc@.skip(2) + Seq::<char>::empty() =~= acc@.skip(2));
        }
        // Drop the last character written, close the text, and attach it.
        let chars = str_chars(acc.as_str());
        let mut kept: Vec<char> = Vec::new();
        let mut t: usize = 0;
        proof {
            assert(chars@.len() >= 2);
        }
        while t < chars.len() - 1
            invariant
                chars@ == acc@,
                t <= chars@.len() - 1,
                chars@.len() >= 2,
                chars.len() == chars@.len(),
                kept@ == chars@.take(t as int),
            decreases chars.len() - t,
        {
            kept.push(chars[t]);
            assert(kept@ =~= chars@.take(t as int + 1));
            t += 1;
        }
        let trimmed = string_from_chars(&kept);
        let closed_text = trimmed.concat("]}");
        proof {
            reveal_strlit("]}");
            assert("]}"@ =~= seq![']', '}']);
            let body = spec_metadata_body(entries, args)->Ok_0;
            assert(acc@ =~= acc@.take(2) + acc@.skip(2));
            assert(acc@ == opening + body);
            assert(kept@ =~= (opening + body).drop_last());
            assert(closed_text@ =~= spec_metadata_string(entries, args)->Ok_0);
        }
        let bytes = closed_text.as_str().as_bytes_vec();
        Ok(builder.with_application_metadata(bytes))
    }
}

} // verus!
