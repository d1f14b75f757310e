//! Core logic of a federated social-activity server.
//!
//! Accounts publish notes and follow each other; committed state changes are
//! announced as interactions and fanned out to subscribers by header-based
//! matching. This crate holds the verified heart of that pipeline: the graph
//! data model and its queries, the transaction engine that turns actions into
//! durable mutations and buffered interactions, header derivation and filter
//! matching for the fan-out exchange, URL resolution for local and remote
//! entities, the request-scoped coalescing cache, and the decision logic of
//! the inbound and outbound federation workers. The broker, the graph
//! database and the HTTP surface are external collaborators driven by an
//! unverified shell around this crate.

mod activity;
mod cache;
mod catalog;
mod errors;
mod federation;
mod interaction;
mod messages;
mod model;
mod page_limit;
mod queries;
mod store;
mod urls;
mod worker;

pub use activity::ActorDoc;
pub use activity::CreateActivity;
pub use activity::FollowActivity;
pub use activity::FollowResponseActivity;
pub use activity::NoteObject;
pub use activity::OrderedCollection;
pub use activity::OrderedCollectionPage;
pub use activity::account_from_actor_doc;
pub use activity::account_to_actor_doc;
pub use activity::as_public_url;
pub use activity::follow_to_activity_doc;
pub use activity::make_actor_and_object_activity;
pub use activity::make_follow_response;
pub use activity::make_ordered_collection;
pub use activity::make_ordered_collection_page;
pub use activity::note_to_object_doc;
pub use activity::spec_actor_renderable;
pub use activity::spec_note_renderable;
pub use activity::spec_public_url;
pub use activity::spec_recipient_url;
pub use cache::CacheCell;
pub use cache::RecordCache;
pub use cache::ShortLivedCache;
pub use cache::cache_wf;
pub use cache::claim_outcome;
pub use cache::fulfill_outcome;
pub use cache::lemma_cache_coalescing;
pub use cache::spec_cache_get;
pub use catalog::BrokerExchangeKind;
pub use catalog::ExchangeDecl;
pub use catalog::MessageKind;
pub use catalog::ReceiveActivity;
pub use catalog::TestAnnounce;
pub use catalog::exchange_declaration;
pub use errors::Error;
pub use federation::AccountLocator;
pub use federation::DeliverActivity;
pub use federation::InboundActivity;
pub use federation::OutboundActivity;
pub use federation::PathData;
pub use federation::PublishNoteQuery;
pub use federation::accept_follow_outcome;
pub use federation::account_locator;
pub use federation::follow_request_parts;
pub use federation::follow_transaction;
pub use federation::initiate_follow_status;
pub use federation::interaction_delivery;
pub use federation::normalize_lookup_domain;
pub use interaction::GetInteractionsStreamQuery;
pub use interaction::Header;
pub use interaction::HeaderV;
pub use interaction::ListenerBindings;
pub use interaction::delivers;
pub use interaction::header_wire_key;
pub use interaction::interaction_headers;
pub use interaction::lemma_contains_push;
pub use interaction::lemma_filter_completeness;
pub use interaction::lemma_wire_key_injective;
pub use interaction::listener_bindings;
pub use interaction::spec_binding_derived;
pub use interaction::spec_delivers;
pub use interaction::spec_header_derived;
pub use interaction::spec_join_commas;
pub use interaction::spec_originator;
pub use interaction::spec_recipients;
pub use interaction::spec_wire_key;
pub use interaction::split_commas;
pub use messages::Action;
pub use messages::ActionResponse;
pub use messages::ActionResponseV;
pub use messages::ActionV;
pub use messages::Interaction;
pub use messages::InteractionV;
pub use messages::Transaction;
pub use messages::TransactionResponse;
pub use messages::response_matches_action;
pub use messages::single_response;
pub use messages::spec_emitted;
pub use messages::spec_emitted_all;
pub use model::Account;
pub use model::AccountV;
pub use model::DeepClone;
pub use model::Document;
pub use model::DocumentV;
pub use model::Edge;
pub use model::EdgeV;
pub use model::Follow;
pub use model::FollowV;
pub use model::Like;
pub use model::Note;
pub use model::NoteV;
pub use model::Publish;
pub use model::Recipient;
pub use model::RecipientV;
pub use model::RemoteAccountInfo;
pub use model::RemoteAccountInfoV;
pub use model::RemoteNoteInfo;
pub use model::RemoteNoteInfoV;
pub use model::Share;
pub use model::Wrap;
pub use model::Wrapper;
pub use model::account_wf;
pub use model::clone_opt;
pub use model::note_is_local;
pub use model::spec_is_local;
pub use page_limit::ApplyPageLimit;
pub use page_limit::PageLimit;
pub use page_limit::decimal_string;
pub use page_limit::spec_dec;
pub use page_limit::spec_offset;
pub use page_limit::spec_page;
pub use page_limit::vec_apply_page_limit;
pub use queries::lemma_permutation_preserves;
pub use queries::sort_rows_desc;
pub use queries::spec_find_by_username;
pub use queries::spec_followers;
pub use queries::spec_following;
pub use queries::spec_published_notes;
pub use queries::spec_sorted_desc;
pub use queries::spec_timeline_candidates;
pub use queries::ts_le;
pub use store::GraphStore;
pub use store::account_uri;
pub use store::spec_find_account;
pub use store::spec_find_follow;
pub use store::spec_find_follow_between;
pub use store::spec_find_note;
pub use store::store_wf;
pub use urls::AbsUrl;
pub use urls::UrlV;
pub use urls::Urls;
pub use urls::default_base_url;
pub use urls::lemma_url_ownership;
pub use urls::percent_encoded;
pub use urls::spec_account_url;
pub use urls::spec_effective_account;
pub use urls::spec_effective_note;
pub use urls::spec_joined;
pub use urls::spec_local_account_url;
pub use urls::spec_same_origin;
pub use urls::spec_url_text;
pub use urls::spec_users_path_name;
pub use urls::url_wf;
pub use urls::urls_wf;
pub use urls::username_from_users_path;
pub use urls::webfinger_applies;
pub use urls::webfinger_resource;
pub use urls::webfinger_subject;
pub use urls::webfinger_url;
pub use worker::execute_action;
pub use worker::execute_transaction;
pub use worker::execute_transaction_now;
pub use worker::lemma_follow_idempotence;
pub use worker::lemma_set_follow_accepted_idempotence;
pub use worker::outcome_fetch_account;
pub use worker::outcome_initiate_follow;
pub use worker::outcome_publish_note;
pub use worker::outcome_set_follow_accepted;
pub use worker::RunStateV;
pub use worker::spec_action_admitted;
pub use worker::spec_action_next;
pub use worker::spec_admits;
pub use worker::spec_count_fetches;
pub use worker::spec_fold_state;
pub use worker::spec_run_state;
pub use worker::spec_step_rel;
pub use worker::spec_steps;
pub use worker::store_views_eq;
pub use worker::spec_opt_interaction;
